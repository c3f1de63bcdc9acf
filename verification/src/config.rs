//! Feature switches read from the user's configuration file.

use vstd::prelude::*;

verus! {

/// Which features are switched on by default; every switch is off unless the
/// configuration says otherwise.
#[derive(Debug, Clone, Copy)]
pub struct RicatConfig {
    pub number_feature: bool,
    pub dollar_sign_feature: bool,
    pub tabs_feature: bool,
    pub compress_empty_line_feature: bool,
    pub pagination_feature: bool,
}

impl Default for RicatConfig {
    fn default() -> (config: Self)
        ensures
            !config.number_feature,
            !config.dollar_sign_feature,
            !config.tabs_feature,
            !config.compress_empty_line_feature,
            !config.pagination_feature,
    {
        RicatConfig {
            number_feature: false,
            dollar_sign_feature: false,
            tabs_feature: false,
            compress_empty_line_feature: false,
            pagination_feature: false,
        }
    }
}

} // verus!
