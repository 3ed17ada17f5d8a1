//! Verified core of the jex JVM toolchain: coordinates, version rules,
//! license and audit reports, JFR and jcmd output parsing, and the
//! renderers that turn them into text.

pub mod text;
pub mod num;
pub mod error;
pub mod util;
pub mod diag;
pub mod jfr;
pub mod i18n;
pub mod tally;
pub mod license;
pub mod license_check;
pub mod audit;
pub mod audit_fix;
pub mod update;
pub mod fmt;
pub mod watch;
pub mod profiler;
pub mod changelog;
pub mod compat_check;
pub mod tree;
pub mod tree_verbose;
pub mod deps;
pub mod pin;
pub mod jdk;
pub mod dashboard;
pub mod tree_view;
pub mod outdated;
pub mod report;
pub mod xml;
pub mod resolver;
pub mod import;
pub mod analyze;
pub mod export;
pub mod cache;
pub mod script;
pub mod run;
pub mod search;
pub mod template;
pub mod workspace;
pub mod config;
pub mod init_wizard;
