//! The node's running environment: the mode it boots in and the endpoint
//! set that mode selects, overridden by kernel parameters and by a few
//! process environment variables.
//!
//! Everything here is pure resolution logic. Reading the command line and
//! the environment variables is the embedding binary's work; their values
//! arrive as plain arguments.

use vstd::prelude::*;
use vstd::string::*;
use crate::kernel::Params;
use crate::text::{parse_i32, spec_i32_valid, spec_i32_value, str_eq};

verus! {

/// The possible running modes of a node.
#[derive(Debug, Clone, Copy, PartialEq, Eq, Structural)]
pub enum RunMode {
    Dev,
    Qa,
    Test,
    Main,
}

/// Display name of a mode.
pub open spec fn spec_run_mode_text(m: RunMode) -> Seq<char> {
    match m {
        RunMode::Dev => "development"@,
        RunMode::Qa => "qa"@,
        RunMode::Test => "testing"@,
        RunMode::Main => "production"@,
    }
}

/// The mode a mode word names, if any: `dev` and `development` are
/// development, `main` and `production` are production.
pub open spec fn spec_mode_of(s: Seq<char>) -> Option<RunMode> {
    if s == "dev"@ || s == "development"@ {
        Some(RunMode::Dev)
    } else if s == "qa"@ {
        Some(RunMode::Qa)
    } else if s == "test"@ {
        Some(RunMode::Test)
    } else if s == "main"@ || s == "production"@ {
        Some(RunMode::Main)
    } else {
        None
    }
}

impl RunMode {
    /// Display name of this mode.
    pub fn as_str(&self) -> (r: &'static str)
        ensures
            r@ == spec_run_mode_text(*self),
    {
        match self {
            RunMode::Dev => "development",
            RunMode::Qa => "qa",
            RunMode::Test => "testing",
            RunMode::Main => "production",
        }
    }

    /// Parses a mode word; any unknown word is rejected.
    pub fn from_str(input: &str) -> (r: Result<RunMode, &'static str>)
        ensures
            spec_mode_of(input@) matches Some(m) ==> r == Ok::<RunMode, &'static str>(m),
            spec_mode_of(input@) is None ==> (r matches Err(e) && e@ == "Invalid Running mode"@),
    {
        if str_eq(input, "dev") || str_eq(input, "development") {
            Ok(RunMode::Dev)
        } else if str_eq(input, "qa") {
            Ok(RunMode::Qa)
        } else if str_eq(input, "test") {
            Ok(RunMode::Test)
        } else if str_eq(input, "main") || str_eq(input, "production") {
            Ok(RunMode::Main)
        } else {
            Err("Invalid Running mode")
        }
    }
}

/// The binary repository each mode uses.
pub open spec fn spec_bin_repo(m: RunMode) -> Seq<char> {
    match m {
        RunMode::Dev => "tf-zos-v3-bins.dev"@,
        RunMode::Qa => "tf-zos-v3-bins.qanet"@,
        RunMode::Test => "tf-zos-v3-bins.qanet"@,
        RunMode::Main => "tf-zos-v3-bins"@,
    }
}

/// The activation endpoint each mode uses.
pub open spec fn spec_activation_url(m: RunMode) -> Seq<char> {
    match m {
        RunMode::Dev => "https://activation.dev.grid.tf/activation/activate"@,
        RunMode::Qa => "https://activation.qa.grid.tf/activation/activate"@,
        RunMode::Test => "https://activation.qa.grid.tf/activation/activate"@,
        RunMode::Main => "https://activation.grid.tf/activation/activate"@,
    }
}

/// The chain endpoints each mode uses.
pub open spec fn spec_substrate_urls(m: RunMode) -> Seq<Seq<char>> {
    match m {
        RunMode::Dev => seq!["wss://tfchain.dev.grid.tf/"@],
        RunMode::Qa => seq!["wss://tfchain.qa.grid.tf/"@],
        RunMode::Test => seq!["wss://tfchain.qa.grid.tf/"@],
        RunMode::Main => seq![
            "wss://tfchain.grid.tf/"@,
            "wss://02.tfchain.grid.tf/"@,
            "wss://03.tfchain.grid.tf/"@,
            "wss://04.tfchain.grid.tf/"@,
        ],
    }
}

/// Everything the running environment decides for a node: the mode and
/// the endpoints, repository and farm settings that follow from it.
#[derive(Debug, Clone)]
pub struct Environment {
    pub run_mode: RunMode,
    pub flist_url: String,
    pub bin_repo: String,
    pub farmer_id: i32,
    pub orphan: bool,
    pub farmer_secret: String,
    pub substrate_url: Vec<String>,
    pub activation_url: String,
    pub extended_config_url: String,
}

/// The defaults a mode selects, before any override: no farm, unknown
/// secret and extended configuration, and the mode's own endpoints.
pub fn get_env(run_mode: RunMode) -> (r: Environment)
    ensures
        r.run_mode == run_mode,
        r.flist_url@ == "redis://hub.grid.tf:9900"@,
        r.farmer_id == 0,
        r.orphan,
        r.farmer_secret@ == "Unknown"@,
        r.extended_config_url@ == "Unknown"@,
        r.bin_repo@ == spec_bin_repo(run_mode),
        r.substrate_url.deep_view() == spec_substrate_urls(run_mode),
        r.activation_url@ == spec_activation_url(run_mode),
{
    let bin_repo = match run_mode {
        RunMode::Dev => String::from_str("tf-zos-v3-bins.dev"),
        RunMode::Qa => String::from_str("tf-zos-v3-bins.qanet"),
        RunMode::Test => String::from_str("tf-zos-v3-bins.qanet"),
        RunMode::Main => String::from_str("tf-zos-v3-bins"),
    };
    let activation_url = match run_mode {
        RunMode::Dev => String::from_str("https://activation.dev.grid.tf/activation/activate"),
        RunMode::Qa => String::from_str("https://activation.qa.grid.tf/activation/activate"),
        RunMode::Test => String::from_str("https://activation.qa.grid.tf/activation/activate"),
        RunMode::Main => String::from_str("https://activation.grid.tf/activation/activate"),
    };
    let mut substrate_url: Vec<String> = Vec::new();
    match run_mode {
        RunMode::Dev => {
            substrate_url.push(String::from_str("wss://tfchain.dev.grid.tf/"));
        },
        RunMode::Qa => {
            substrate_url.push(String::from_str("wss://tfchain.qa.grid.tf/"));
        },
        RunMode::Test => {
            substrate_url.push(String::from_str("wss://tfchain.qa.grid.tf/"));
        },
        RunMode::Main => {
            substrate_url.push(String::from_str("wss://tfchain.grid.tf/"));
            substrate_url.push(String::from_str("wss://02.tfchain.grid.tf/"));
            substrate_url.push(String::from_str("wss://03.tfchain.grid.tf/"));
            substrate_url.push(String::from_str("wss://04.tfchain.grid.tf/"));
        },
    }
    proof {
        assert(substrate_url.deep_view() =~= spec_substrate_urls(run_mode));
    }
    Environment {
        run_mode,
        flist_url: String::from_str("redis://hub.grid.tf:9900"),
        bin_repo,
        farmer_id: 0,
        orphan: true,
        farmer_secret: String::from_str("Unknown"),
        substrate_url,
        activation_url,
        extended_config_url: String::from_str("Unknown"),
    }
}

/// The process environment variables the resolution honours, each absent
/// when unset.
#[derive(Debug, Clone)]
pub struct EnvOverrides {
    pub runmode: Option<String>,
    pub substrate_url: Option<String>,
    pub flist_url: Option<String>,
    pub bin_repo: Option<String>,
}

/// View of one optional override.
pub open spec fn spec_opt_text(o: Option<String>) -> Option<Seq<char>> {
    match o {
        None => None,
        Some(s) => Some(s@),
    }
}

/// The value list a key carries: `None` for an absent key and for a bare
/// flag alike.
pub open spec fn spec_param_list(
    p: Map<Seq<char>, Option<Seq<Seq<char>>>>,
    k: Seq<char>,
) -> Option<Seq<Seq<char>>> {
    if p.contains_key(k) {
        p[k]
    } else {
        None
    }
}

/// The mode word the resolution settles on: the first `runmode` kernel
/// parameter, `main` when the parameter is present without values, else
/// the environment variable, else `Unknown`.
pub open spec fn spec_resolved_runmode(
    p: Map<Seq<char>, Option<Seq<Seq<char>>>>,
    env_runmode: Option<Seq<char>>,
) -> Seq<char> {
    match spec_param_list(p, "runmode"@) {
        Some(l) => if l.len() > 0 {
            l[0]
        } else {
            "main"@
        },
        None => match env_runmode {
            Some(s) => s,
            None => "Unknown"@,
        },
    }
}

/// The `farmer_id` parameter carries a first value that is no `i32`
/// literal; the only input the resolution rejects.
pub open spec fn spec_farmer_id_invalid(p: Map<Seq<char>, Option<Seq<Seq<char>>>>) -> bool {
    match spec_param_list(p, "farmer_id"@) {
        Some(l) => l.len() >= 1 && !spec_i32_valid(l[0]),
        None => false,
    }
}

/// Why the environment could not be resolved.
#[derive(Debug, Clone, Copy, PartialEq, Eq, Structural)]
pub enum EnvError {
    /// The `farmer_id` kernel parameter is not a valid `i32`.
    InvalidFarmerId,
}

/// Resolves the running environment from the kernel parameters and the
/// override variables. The mode word must name a mode (the caller checks
/// first, as the boot path treats an unknown mode as fatal). Fails exactly
/// when the `farmer_id` parameter carries an unreadable first value.
pub fn get_env_from_params(params: &Params, overrides: &EnvOverrides) -> (r: Result<
    Environment,
    EnvError,
>)
    requires
        params.wf(),
        spec_mode_of(spec_resolved_runmode(params@, spec_opt_text(overrides.runmode))) is Some,
    ensures
        r is Err <==> spec_farmer_id_invalid(params@),
        r matches Err(e) ==> e == EnvError::InvalidFarmerId,
        r matches Ok(e) ==> {
            let m = spec_mode_of(
                spec_resolved_runmode(params@, spec_opt_text(overrides.runmode)),
            ).unwrap();
            &&& e.run_mode == m
            &&& e.extended_config_url@ == (match spec_param_list(params@, "config_url"@) {
                Some(l) => if l.len() > 0 {
                    l[0]
                } else {
                    "Unknown"@
                },
                None => "Unknown"@,
            })
            &&& e.substrate_url.deep_view() == (match spec_opt_text(overrides.substrate_url) {
                Some(s) => seq![s],
                None => match spec_param_list(params@, "substrate"@) {
                    Some(l) => if l.len() > 0 {
                        l
                    } else {
                        spec_substrate_urls(m)
                    },
                    None => spec_substrate_urls(m),
                },
            })
            &&& e.activation_url@ == (match spec_param_list(params@, "activation"@) {
                Some(l) => if l.len() > 0 {
                    l.last()
                } else {
                    spec_activation_url(m)
                },
                None => spec_activation_url(m),
            })
            &&& e.farmer_secret@ == (match spec_param_list(params@, "secret"@) {
                Some(l) => if l.len() > 0 {
                    l.last()
                } else {
                    "Unknown"@
                },
                None => "Unknown"@,
            })
            &&& (match spec_param_list(params@, "farmer_id"@) {
                Some(l) => if l.len() >= 1 {
                    !e.orphan && e.farmer_id as int == spec_i32_value(l[0])
                } else {
                    e.orphan && e.farmer_id == 0
                },
                None => e.orphan && e.farmer_id == 0,
            })
            &&& e.flist_url@ == (match spec_opt_text(overrides.flist_url) {
                Some(s) => s,
                None => "redis://hub.grid.tf:9900"@,
            })
            &&& e.bin_repo@ == (match spec_opt_text(overrides.bin_repo) {
                Some(s) => s,
                None => spec_bin_repo(m),
            })
        },
{
    let run_mode_word: String = match params.values("runmode") {
        Some(rm) => {
            if rm.len() > 0 {
                proof {
                    assert(rm.deep_view()[0] == rm@[0]@);
                }
                rm[0].clone()
            } else {
                String::from_str("main")
            }
        },
        None => match &overrides.runmode {
            Some(s) => s.clone(),
            None => String::from_str("Unknown"),
        },
    };
    proof {
        assert(run_mode_word@ == spec_resolved_runmode(
            params@,
            spec_opt_text(overrides.runmode),
        ));
    }
    let run_mode = match RunMode::from_str(run_mode_word.as_str()) {
        Ok(m) => m,
        // The resolved word names a mode by this function's contract.
        Err(_) => unreached(),
    };
    let mut env = get_env(run_mode);
    match params.values("config_url") {
        Some(extended) => {
            if extended.len() > 0 {
                proof {
                    assert(extended.deep_view()[0] == extended@[0]@);
                }
                env.extended_config_url = extended[0].clone();
            }
        },
        None => {},
    }
    match params.values("substrate") {
        Some(substrate) => {
            if substrate.len() > 0 {
                let mut v: Vec<String> = Vec::new();
                let m = substrate.len();
                let mut j: usize = 0;
                while j < m
                    invariant
                        0 <= j <= m,
                        m == substrate@.len(),
                        v.deep_view() =~= substrate.deep_view().take(j as int),
                    decreases m - j,
                {
                    let ghost dv = v.deep_view();
                    v.push(substrate[j].clone());
                    proof {
                        assert(v.deep_view() =~= dv.push(substrate.deep_view()[j as int]));
                        assert(substrate.deep_view().take(j as int + 1) =~= substrate.deep_view()
                            .take(j as int).push(substrate.deep_view()[j as int]));
                    }
                    j = j + 1;
                }
                proof {
                    assert(v.deep_view() =~= substrate.deep_view());
                }
                env.substrate_url = v;
            }
        },
        None => {},
    }
    match params.values("activation") {
        Some(activation) => {
            if activation.len() > 0 {
                proof {
                    assert(activation.deep_view().last() == activation@[activation@.len() - 1]@);
                }
                env.activation_url = activation[activation.len() - 1].clone();
            }
        },
        None => {},
    }
    match params.values("secret") {
        Some(farm_secret) => {
            if farm_secret.len() > 0 {
                proof {
                    assert(farm_secret.deep_view().last() == farm_secret@[farm_secret@.len()
                        - 1]@);
                }
                env.farmer_secret = farm_secret[farm_secret.len() - 1].clone();
            }
        },
        None => {},
    }
    match params.values("farmer_id") {
        Some(farmer_id) => {
            if farmer_id.len() < 1 {
                env.orphan = true;
                env.farmer_id = 0;
            } else {
                proof {
                    assert(farmer_id.deep_view()[0] == farmer_id@[0]@);
                }
                match parse_i32(farmer_id[0].as_str()) {
                    Some(id) => {
                        env.orphan = false;
                        env.farmer_id = id;
                    },
                    None => {
                        return Err(EnvError::InvalidFarmerId);
                    },
                }
            }
        },
        None => {
            env.orphan = true;
            env.farmer_id = 0;
        },
    }
    match &overrides.substrate_url {
        Some(s) => {
            let mut v: Vec<String> = Vec::new();
            v.push(s.clone());
            proof {
                assert(v.deep_view() =~= seq![s@]);
            }
            env.substrate_url = v;
        },
        None => {},
    }
    match &overrides.flist_url {
        Some(s) => {
            env.flist_url = s.clone();
        },
        None => {},
    }
    match &overrides.bin_repo {
        Some(s) => {
            env.bin_repo = s.clone();
        },
        None => {},
    }
    Ok(env)
}

} // verus!
