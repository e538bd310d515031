//! When the service scans its sources: the hourly Beijing-time schedule and
//! the guard for runs that users ask for.

pub mod hourly;
pub mod manual;
