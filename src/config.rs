use vstd::prelude::*;

verus! {

/// The root branch of the workflow.
#[derive(Debug, Clone)]
pub struct ConfigMain {
    pub branch: String,
}

impl Default for ConfigMain {
    fn default() -> (r: Self)
        ensures
            r.branch@ == "main"@,
    {
        ConfigMain { branch: String::from_str("main") }
    }
}

/// An optional branch between the root branch and the feature branches.
#[derive(Debug, Clone)]
pub struct ConfigNightly {
    pub branch: String,
    pub enable: bool,
}

impl Default for ConfigNightly {
    fn default() -> (r: Self)
        ensures
            r.branch@ == "nightly"@,
            !r.enable,
    {
        ConfigNightly { branch: String::from_str("nightly"), enable: false }
    }
}

/// How new feature branches are named.
#[derive(Debug, Clone)]
pub struct ConfigFeature {
    pub prefix: String,
}

impl Default for ConfigFeature {
    fn default() -> (r: Self)
        ensures
            r.prefix@ == "feature"@,
    {
        ConfigFeature { prefix: String::from_str("feature") }
    }
}

/// The workflow configuration of a repository.
#[derive(Debug, Clone)]
pub struct Config {
    pub main: ConfigMain,
    pub nightly: ConfigNightly,
    pub feature: ConfigFeature,
}

impl Default for Config {
    fn default() -> (r: Self)
        ensures
            r.main.branch@ == "main"@,
            r.nightly.branch@ == "nightly"@,
            !r.nightly.enable,
            r.feature.prefix@ == "feature"@,
    {
        Config {
            main: ConfigMain::default(),
            nightly: ConfigNightly::default(),
            feature: ConfigFeature::default(),
        }
    }
}

impl Config {
    /// The path of the configuration file in directory `dir`.
    pub fn path(dir: &str) -> (r: String)
        ensures
            r@ == dir@ + "/gtea.toml"@,
    {
        let mut r = String::from_str(dir);
        r.append("/gtea.toml");
        r
    }
}

} // verus!
