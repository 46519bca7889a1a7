//! The user-level tool configuration: which container image to use, and
//! where the configuration file lives under the user's configuration
//! directory.

use vstd::prelude::*;

verus! {

use crate::toml_values::toml_wf;
use crate::toml_values::toml_str_field_of;
use crate::toml_values::toml_well_formed;
use crate::toml_values::read_str_field;

/// The `[docker]` section of the tool configuration.
#[derive(Debug, Clone, PartialEq)]
pub struct DockerConfig {
    pub image: String,
}

/// The whole tool configuration.
#[derive(Debug, Clone, PartialEq)]
pub struct Config {
    pub docker: DockerConfig,
}

/// The container image used when none is configured.
pub fn default_image() -> (r: String)
    ensures
        r@ == "ghcr.io/meawoppl/affogato:latest"@,
{
    "ghcr.io/meawoppl/affogato:latest".to_owned()
}

impl Default for DockerConfig {
    fn default() -> (r: Self)
        ensures
            r.image@ == "ghcr.io/meawoppl/affogato:latest"@,
    {
        DockerConfig { image: default_image() }
    }
}

impl Default for Config {
    fn default() -> (r: Self)
        ensures
            r.docker.image@ == "ghcr.io/meawoppl/affogato:latest"@,
    {
        Config { docker: Default::default() }
    }
}

/// Builds the `[docker]` section from its optional field, defaulting the
/// image when none is set.
pub fn docker_config_from_fields(image: Option<String>) -> (r: DockerConfig)
    ensures
        r.image@ == (match image {
            Some(i) => i@,
            None => "ghcr.io/meawoppl/affogato:latest"@,
        }),
{
    DockerConfig {
        image: match image {
            Some(i) => i,
            None => default_image(),
        },
    }
}

impl Config {
    /// The configuration file's place under the user's configuration
    /// directory.
    pub fn config_path(base: &str) -> (r: String)
        ensures
            r@ == base@ + "/affogato/config.toml"@,
    {
        let mut s = base.to_owned();
        s.append("/affogato/config.toml");
        s
    }

    /// Reads a configuration document: the configured image, or `None`
    /// exactly for a malformed one — text that is not TOML, or an image
    /// key that does not hold a string. An absent section or key falls
    /// back to the default image.
    pub fn parse(text: &str) -> (r: Option<Config>)
        ensures
            match r {
                Some(c) => {
                    &&& toml_wf(text@)
                    &&& toml_str_field_of(text@, "docker"@, "image"@) matches Some(img)
                        && c.docker.image@ == (match img {
                        Some(i) => i,
                        None => "ghcr.io/meawoppl/affogato:latest"@,
                    })
                },
                None => !toml_wf(text@) || toml_str_field_of(text@, "docker"@, "image"@) is None,
            },
    {
        if !toml_well_formed(text) {
            return None;
        }
        let image = match read_str_field(text, "docker", "image") {
            Ok(v) => v,
            Err(_) => return None,
        };
        Some(Config { docker: docker_config_from_fields(image) })
    }
}

} // verus!
