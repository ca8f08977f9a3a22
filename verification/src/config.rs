use vstd::prelude::*;

verus! {

// The process configuration.  The command line and the configuration file
// fill the same shape; merging them prefers the command line field by field.
pub struct Config {
    pub token: Option<String>,
    pub songs_path: Option<String>,
    pub lang: Option<String>,
    pub search_file: Option<String>,
    pub reports_path: Option<String>,
    pub config: Option<String>,
}

impl Config {
    pub fn new() -> (r: Self)
        ensures
            r.token is None,
            r.songs_path is None,
            r.lang is None,
            r.search_file is None,
            r.reports_path is None,
            r.config is None,
    {
        Self {
            token: None,
            songs_path: None,
            lang: None,
            search_file: None,
            reports_path: None,
            config: None,
        }
    }

    /// The configuration the process runs with: each field set on the command
    /// line wins over the one read from the configuration file.
    pub fn merge(file: Config, args: Config) -> (r: Config)
        ensures
            r.token == (if args.token is Some {
                args.token
            } else {
                file.token
            }),
            r.songs_path == (if args.songs_path is Some {
                args.songs_path
            } else {
                file.songs_path
            }),
            r.lang == (if args.lang is Some {
                args.lang
            } else {
                file.lang
            }),
            r.search_file == (if args.search_file is Some {
                args.search_file
            } else {
                file.search_file
            }),
            r.reports_path == (if args.reports_path is Some {
                args.reports_path
            } else {
                file.reports_path
            }),
            r.config == (if args.config is Some {
                args.config
            } else {
                file.config
            }),
    {
        Config {
            token: if args.token.is_some() {
                args.token
            } else {
                file.token
            },
            songs_path: if args.songs_path.is_some() {
                args.songs_path
            } else {
                file.songs_path
            },
            lang: if args.lang.is_some() {
                args.lang
            } else {
                file.lang
            },
            search_file: if args.search_file.is_some() {
                args.search_file
            } else {
                file.search_file
            },
            reports_path: if args.reports_path.is_some() {
                args.reports_path
            } else {
                file.reports_path
            },
            config: if args.config.is_some() {
                args.config
            } else {
                file.config
            },
        }
    }

    /// The two settings the process cannot start without.
    pub fn is_complete(&self) -> (r: bool)
        ensures
            r == (self.token is Some && self.songs_path is Some),
    {
        self.token.is_some() && self.songs_path.is_some()
    }
}

} // verus!
