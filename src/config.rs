//! Application settings and system facts.
use vstd::prelude::*;
use crate::paths::{join_path, join_spec, user_home_dir};

verus! {

/// The user's settings.
#[derive(Clone, Debug)]
pub struct AppConfig {
    pub auto_start_services: bool,
    pub auto_start_list: Vec<String>,
    pub default_php_version: String,
    pub sites_directory: String,
    pub tld: String,
    pub nginx_port: u16,
    pub nginx_ssl_port: u16,
    pub mariadb_port: u16,
    pub php_fpm_base_port: u16,
    pub openrouter_api_key: String,
    pub ai_model: String,
    pub ai_system_prompt: String,
}

/// Facts about the machine and the application, for display.
#[derive(Clone, Debug)]
pub struct SystemInfo {
    pub os: String,
    pub arch: String,
    pub data_dir: String,
    pub app_version: String,
}

/// The default settings for a user whose home directory is `home` (empty
/// when unknown): no auto-start, PHP 8.3, sites under `Sites` in the home
/// directory, the `test` domain, web server on 8080 and 8443, database on
/// 3306, FPM pools from 9081, no API key and no assistant settings.
pub open spec fn is_default_config(c: AppConfig, home: Seq<char>) -> bool {
    &&& !c.auto_start_services
    &&& c.auto_start_list@.len() == 0
    &&& c.default_php_version@ == "8.3"@
    &&& c.sites_directory@ == join_spec(home, "Sites"@)
    &&& c.tld@ == "test"@
    &&& c.nginx_port == 8080
    &&& c.nginx_ssl_port == 8443
    &&& c.mariadb_port == 3306
    &&& c.php_fpm_base_port == 9081
    &&& c.openrouter_api_key@.len() == 0
    &&& c.ai_model@.len() == 0
    &&& c.ai_system_prompt@.len() == 0
}

impl AppConfig {
    /// The default settings for a given home directory.
    pub fn defaults_for_home(home: &str) -> (r: AppConfig)
        ensures
            is_default_config(r, home@),
    {
        AppConfig {
            auto_start_services: false,
            auto_start_list: Vec::new(),
            default_php_version: String::from_str("8.3"),
            sites_directory: join_path(home, "Sites"),
            tld: String::from_str("test"),
            nginx_port: 8080,
            nginx_ssl_port: 8443,
            mariadb_port: 3306,
            php_fpm_base_port: 9081,
            openrouter_api_key: String::new(),
            ai_model: String::new(),
            ai_system_prompt: String::new(),
        }
    }
}

impl Default for AppConfig {
    /// The default settings for the current user.
    fn default() -> (r: AppConfig)
        ensures
            exists|home: Seq<char>| is_default_config(r, home),
    {
        let home = match user_home_dir() {
            Some(h) => h,
            None => String::new(),
        };
        AppConfig::defaults_for_home(home.as_str())
    }
}

} // verus!
