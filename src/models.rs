//! The entity records of the platform.
pub mod billing;
pub mod connections;
pub mod gamification;
pub mod group_activity;
pub mod learning_path;
pub mod learning_progress;
pub mod notifications;
pub mod study_group;
pub mod tutor;
pub mod user;
