//! The configuration surface the core consumes: where images and
//! thumbnails live, resolved against the directory that holds the
//! configuration file. Loading and saving the file is the caller's.

use vstd::prelude::*;
use vstd::string::*;
use crate::paths::{is_absolute_spec, is_absolute, join_path};

verus! {

/// The application's settings. Only the two directory overrides steer
/// the core; the thumbnail knobs are advisory.
#[derive(Debug, Clone, PartialEq, Eq)]
pub struct AppConfig {
    pub images_dir: Option<String>,
    pub thumbnails_dir: Option<String>,
    pub auto_generate_thumbnails: bool,
    pub thumbnail_max_width: u32,
    pub thumbnail_max_height: u32,
}

impl Default for AppConfig {
    /// No overrides, thumbnails on, four hundred pixels each way.
    fn default() -> (c: AppConfig)
        ensures
            c.images_dir is None,
            c.thumbnails_dir is None,
            c.auto_generate_thumbnails == true,
            c.thumbnail_max_width == 400,
            c.thumbnail_max_height == 400,
    {
        AppConfig {
            images_dir: None,
            thumbnails_dir: None,
            auto_generate_thumbnails: true,
            thumbnail_max_width: 400,
            thumbnail_max_height: 400,
        }
    }
}

/// Resolves a configured directory against the configuration file's
/// directory: an absolute override stands; a relative one is joined;
/// nothing configured falls back to `fallback` joined the same way.
pub open spec fn resolve_dir_spec(
    configured: Option<String>,
    config_dir: Seq<char>,
    fallback: Seq<char>,
) -> Seq<char> {
    match configured {
        Option::Some(d) => {
            if is_absolute_spec(d@) {
                d@
            } else {
                config_dir.push('/') + d@
            }
        },
        Option::None => config_dir.push('/') + fallback,
    }
}

/// Where the image blobs live.
pub open spec fn images_dir_spec(config: AppConfig, config_dir: Seq<char>) -> Seq<char> {
    resolve_dir_spec(config.images_dir, config_dir, "images"@)
}

/// Where the thumbnails live: a configured directory resolves like the
/// image directory; otherwise a `thumbnails` child of the image
/// directory.
pub open spec fn thumbnails_dir_spec(config: AppConfig, config_dir: Seq<char>) -> Seq<char> {
    match config.thumbnails_dir {
        Option::Some(d) => {
            if is_absolute_spec(d@) {
                d@
            } else {
                config_dir.push('/') + d@
            }
        },
        Option::None => images_dir_spec(config, config_dir).push('/') + "thumbnails"@,
    }
}

/// The image directory, resolved against the configuration file's
/// directory.
pub fn get_images_dir(config: &AppConfig, config_dir: &String) -> (r: String)
    ensures
        r@ == images_dir_spec(*config, config_dir@),
{
    match &config.images_dir {
        Some(d) => {
            if is_absolute(d.as_str()) {
                d.clone()
            } else {
                join_path(config_dir.as_str(), d.as_str())
            }
        },
        None => join_path(config_dir.as_str(), "images"),
    }
}

/// The thumbnail directory, resolved against the configuration file's
/// directory.
pub fn get_thumbnails_dir(config: &AppConfig, config_dir: &String) -> (r: String)
    ensures
        r@ == thumbnails_dir_spec(*config, config_dir@),
{
    match &config.thumbnails_dir {
        Some(d) => {
            if is_absolute(d.as_str()) {
                d.clone()
            } else {
                join_path(config_dir.as_str(), d.as_str())
            }
        },
        None => {
            let base = get_images_dir(config, config_dir);
            join_path(base.as_str(), "thumbnails")
        },
    }
}

} // verus!
