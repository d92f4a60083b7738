//! Verified core of a local development-environment supervisor.
//!
//! The supervisor tracks a fixed set of services (a web server, a database,
//! PHP-FPM runtimes per PHP version, an admin web app), records what it
//! started and stopped, reconciles its registry with what the drivers
//! observe, works out which PHP-FPM runtimes the web server needs, and runs
//! at most one log-tail session. Every decision is made here; the processes,
//! files and locks are handled by the caller, which hands the outcomes back.

// Text and numbers.
pub mod text;
pub mod order;
pub mod lines;
pub mod pid;
pub mod utils;
pub mod paths;

// Services: model, registry, reconciliation, drivers, dependencies.
pub mod state;
pub mod registry;
pub mod drivers;
pub mod resolver;
pub mod shutdown;
pub mod tail;

// Generated configuration and the collaborators around the core.
pub mod nginx_conf;
pub mod site;
pub mod site_conf;
pub mod config;
pub mod database;
pub mod dns;
pub mod php_ini;
pub mod templates;
pub mod ssl;
