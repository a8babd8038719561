//! The configuration that the arguments of the program give.
//!
//! The arguments are read one after another.  The words `-max`, `-rate`,
//! `-mesh` and `-texture` say what the arguments behind them set for the
//! particle system that is being described; the word `g` closes the
//! description and starts that of the next system.

use crate::error::ConfigError;
use crate::parse::parse_usize;
use crate::parse::same_text;
use crate::parse::unsigned;
use crate::ParticleMeshType;
use vstd::prelude::*;

verus! {

/// What the next argument is read as.
#[derive(Clone, Copy, Debug, PartialEq, Eq)]
pub enum Parse {
    /// Nothing: the argument is passed over.
    Idle,
    /// The end of a system's description.
    NewGenerator,
    ParticleMax,
    ParticleRate,
    Texture,
    Mesh,
}

/// What is wrong with an argument.
#[derive(Clone, Copy, Debug, PartialEq, Eq)]
pub enum ConfigFault {
    NotFound,
    InvalidParticleMax,
    InvalidParticleRate,
    InvalidParticleMesh,
}

/// The configuration of one particle system.
#[derive(Clone, Debug)]
pub struct SystemConfig {
    pub max: usize,
    pub rate: usize,
    pub mesh: ParticleMeshType<'static>,
    /// The path of the texture's file.
    pub texture: Option<String>,
    /// Where the system stands, in fixed-point numbers.
    pub pos: [i64; 2],
}

/// The configuration of one particle system as the contracts see it.
pub struct SystemConfigView {
    pub max: usize,
    pub rate: usize,
    pub mesh: ParticleMeshType<'static>,
    pub texture: Option<Seq<char>>,
    pub pos: [i64; 2],
}

impl View for SystemConfig {
    type V = SystemConfigView;

    open spec fn view(&self) -> SystemConfigView {
        SystemConfigView {
            max: self.max,
            rate: self.rate,
            mesh: self.mesh,
            texture: match self.texture {
                Some(path) => Some(path@),
                None => None,
            },
            pos: self.pos,
        }
    }
}

impl SystemConfigView {
    /// The configuration that `SystemConfig::default` gives.
    pub open spec fn spec_default() -> SystemConfigView {
        SystemConfigView { max: 5000, rate: 10, mesh: ParticleMeshType::Cube, texture: None, pos: [0, 0] }
    }
}

impl Default for SystemConfig {
    fn default() -> (scfg: Self)
        ensures
            scfg@ == SystemConfigView::spec_default(),
    {
        Self { max: 5000, rate: 10, mesh: ParticleMeshType::Cube, texture: None, pos: [0, 0] }
    }
}

/// The configuration of the program: its particle systems.
#[derive(Clone, Debug)]
pub struct Config {
    pub systems: Vec<SystemConfig>,
}

impl View for Config {
    type V = Seq<SystemConfigView>;

    open spec fn view(&self) -> Seq<SystemConfigView> {
        Seq::new(self.systems@.len(), |i: int| self.systems@[i]@)
    }
}

impl Default for Config {
    fn default() -> (cfg: Self)
        ensures
            cfg@ == Seq::<SystemConfigView>::empty(),
    {
        let cfg = Self { systems: Vec::new() };
        assert(cfg@ =~= Seq::<SystemConfigView>::empty());
        cfg
    }
}

/// How far the arguments have been read: what the next one is read as, the
/// systems whose descriptions are closed, and the system being described.
pub struct ParseState {
    pub parser: Parse,
    pub systems: Seq<SystemConfigView>,
    pub scfg: SystemConfigView,
}

impl ParseState {
    /// Nothing read yet.
    pub open spec fn start() -> ParseState {
        ParseState { parser: Parse::Idle, systems: Seq::empty(), scfg: SystemConfigView::spec_default() }
    }

    /// What the word `arg` makes the reader read the next arguments as; none
    /// if `arg` is no such word.
    pub open spec fn keyword(arg: Seq<char>) -> Option<Parse> {
        if arg == "g"@ {
            Some(Parse::NewGenerator)
        } else if arg == "-max"@ {
            Some(Parse::ParticleMax)
        } else if arg == "-rate"@ {
            Some(Parse::ParticleRate)
        } else if arg == "-mesh"@ {
            Some(Parse::Mesh)
        } else if arg == "-texture"@ {
            Some(Parse::Texture)
        } else {
            None
        }
    }

    /// The number that `arg` writes, if it writes one that fits the
    /// machine's word.
    pub open spec fn count(arg: Seq<char>) -> Option<usize> {
        match unsigned(arg) {
            Some(v) => if v <= usize::MAX {
                Some(v as usize)
            } else {
                None
            },
            None => None,
        }
    }

    /// The state after the argument `arg` is read as the state's `parser`
    /// says; `exists` tells whether there is a file of the path `arg`.
    pub open spec fn apply(self, arg: Seq<char>, exists: bool) -> Result<ParseState, ConfigFault> {
        match self.parser {
            Parse::NewGenerator => Ok(
                ParseState {
                    systems: self.systems.push(self.scfg),
                    scfg: SystemConfigView::spec_default(),
                    ..self
                },
            ),
            Parse::Texture => if exists {
                Ok(ParseState { scfg: SystemConfigView { texture: Some(arg), ..self.scfg }, ..self })
            } else {
                Err(ConfigFault::NotFound)
            },
            Parse::ParticleMax => match Self::count(arg) {
                Some(max) => Ok(ParseState { scfg: SystemConfigView { max, ..self.scfg }, ..self }),
                None => Err(ConfigFault::InvalidParticleMax),
            },
            Parse::ParticleRate => match Self::count(arg) {
                Some(rate) => Ok(ParseState { scfg: SystemConfigView { rate, ..self.scfg }, ..self }),
                None => Err(ConfigFault::InvalidParticleRate),
            },
            Parse::Mesh => if arg == "cube"@ {
                Ok(
                    ParseState {
                        scfg: SystemConfigView { mesh: ParticleMeshType::Cube, ..self.scfg },
                        ..self
                    },
                )
            } else {
                Err(ConfigFault::InvalidParticleMesh)
            },
            Parse::Idle => Ok(self),
        }
    }

    /// The state after the argument `arg`.  A word that says what the next
    /// arguments are read as does only that, but for `g`, which is itself
    /// read as the end of a description; any other argument is read as the
    /// state's `parser` says.
    pub open spec fn step(self, arg: Seq<char>, exists: bool) -> Result<ParseState, ConfigFault> {
        match Self::keyword(arg) {
            Some(Parse::NewGenerator) => (ParseState { parser: Parse::NewGenerator, ..self }).apply(
                arg,
                exists,
            ),
            Some(parser) => Ok(ParseState { parser, ..self }),
            None => self.apply(arg, exists),
        }
    }

    /// The systems that the arguments describe: those whose descriptions
    /// were closed, or, if none was, the one being described.
    pub open spec fn finish(self) -> Seq<SystemConfigView> {
        if self.systems.len() == 0 {
            seq![self.scfg]
        } else {
            self.systems
        }
    }
}

/// Whether `exists` tells of the `i`-th argument that there is a file of
/// that path; of an argument that it does not reach it tells nothing.
pub open spec fn exists_at(exists: Seq<bool>, i: int) -> bool {
    0 <= i < exists.len() && exists[i]
}

/// The state after the first `n` of the arguments, or the first fault with
/// the place of its argument.
pub open spec fn after_args(args: Seq<String>, exists: Seq<bool>, n: int) -> Result<
    ParseState,
    (ConfigFault, int),
>
    decreases n,
{
    if n <= 0 {
        Ok(ParseState::start())
    } else {
        match after_args(args, exists, n - 1) {
            Ok(state) => match state.step(args[n - 1]@, exists_at(exists, n - 1)) {
                Ok(next) => Ok(next),
                Err(fault) => Err((fault, n - 1)),
            },
            Err(e) => Err(e),
        }
    }
}

/// Whether `error` tells of `fault` in the argument `arg`.
pub open spec fn reports(error: ConfigError, fault: ConfigFault, arg: Seq<char>) -> bool {
    match fault {
        ConfigFault::NotFound => error matches ConfigError::NotFound(a) && a@ == arg,
        ConfigFault::InvalidParticleMax => error matches ConfigError::InvalidParticleMax(a) && a@ == arg,
        ConfigFault::InvalidParticleRate => error matches ConfigError::InvalidParticleRate(a) && a@
            == arg,
        ConfigFault::InvalidParticleMesh => error matches ConfigError::InvalidParticleMesh(a) && a@
            == arg,
    }
}

/// A fault among the first arguments is the fault of them all.
pub proof fn lemma_args_fault(args: Seq<String>, exists: Seq<bool>, n: int, k: int)
    requires
        0 <= n <= k,
        after_args(args, exists, n) is Err,
    ensures
        after_args(args, exists, k) == after_args(args, exists, n),
    decreases k - n,
{
    if n < k {
        assert(after_args(args, exists, n + 1) == after_args(args, exists, n));
        lemma_args_fault(args, exists, n + 1, k);
    }
}

/// What the word `arg` makes the reader read the next arguments as.
fn keyword(arg: &str) -> (parser: Option<Parse>)
    ensures
        parser == ParseState::keyword(arg@),
{
    if same_text(arg, "g") {
        Some(Parse::NewGenerator)
    } else if same_text(arg, "-max") {
        Some(Parse::ParticleMax)
    } else if same_text(arg, "-rate") {
        Some(Parse::ParticleRate)
    } else if same_text(arg, "-mesh") {
        Some(Parse::Mesh)
    } else if same_text(arg, "-texture") {
        Some(Parse::Texture)
    } else {
        None
    }
}

impl Config {
    /// The configuration that the arguments `args` give; `exists` tells of
    /// each argument, in their order, whether there is a file of that path,
    /// and an argument that it does not reach has none.
    pub fn new(args: Vec<String>, exists: &Vec<bool>) -> (r: Result<Config, ConfigError>)
        ensures
            match after_args(args@, exists@, args@.len() as int) {
                Ok(state) => r matches Ok(cfg) && cfg@ == state.finish(),
                Err((fault, i)) => r matches Err(error) && 0 <= i < args@.len() && reports(
                    error,
                    fault,
                    args@[i]@,
                ),
            },
    {
        let mut parser = Parse::Idle;
        let mut cfg = Config::default();
        let mut scfg = SystemConfig::default();
        let mut i: usize = 0;
        while i < args.len()
            invariant
                i <= args.len(),
                after_args(args@, exists@, i as int) == Ok::<ParseState, (ConfigFault, int)>(
                    ParseState { parser, systems: cfg@, scfg: scfg@ },
                ),
            decreases args.len() - i,
        {
            let arg: &String = &args[i];
            let ghost state = ParseState { parser, systems: cfg@, scfg: scfg@ };
            i += 1;
            let mut apply: bool = true;
            match keyword(arg.as_str()) {
                Some(Parse::NewGenerator) => {
                    parser = Parse::NewGenerator;
                },
                Some(other) => {
                    parser = other;
                    apply = false;
                },
                None => {},
            }
            if apply {
                let fault: Option<ConfigFault> = match parser {
                    Parse::NewGenerator => {
                        let ghost before = cfg@;
                        cfg.systems.push(scfg);
                        proof {
                            assert(cfg@ =~= before.push(state.scfg));
                        }
                        scfg = SystemConfig::default();
                        None
                    },
                    Parse::Texture => {
                        if i - 1 < exists.len() && exists[i - 1] {
                            scfg.texture = Some(arg.clone());
                            None
                        } else {
                            Some(ConfigFault::NotFound)
                        }
                    },
                    Parse::ParticleMax => {
                        match parse_usize(arg.as_str()) {
                            Some(max) => {
                                scfg.max = max;
                                None
                            },
                            None => Some(ConfigFault::InvalidParticleMax),
                        }
                    },
                    Parse::ParticleRate => {
                        match parse_usize(arg.as_str()) {
                            Some(rate) => {
                                scfg.rate = rate;
                                None
                            },
                            None => Some(ConfigFault::InvalidParticleRate),
                        }
                    },
                    Parse::Mesh => {
                        if same_text(arg.as_str(), "cube") {
                            scfg.mesh = ParticleMeshType::Cube;
                            None
                        } else {
                            Some(ConfigFault::InvalidParticleMesh)
                        }
                    },
                    Parse::Idle => None,
                };
                match fault {
                    Some(fault) => {
                        proof {
                            assert(state.step(arg@, exists_at(exists@, i - 1)) == Err::<ParseState, ConfigFault>(
                                fault,
                            ));
                            lemma_args_fault(args@, exists@, i as int, args@.len() as int);
                        }
                        return Err(
                            match fault {
                                ConfigFault::NotFound => ConfigError::NotFound(arg.clone()),
                                ConfigFault::InvalidParticleMax => ConfigError::InvalidParticleMax(
                                    arg.clone(),
                                ),
                                ConfigFault::InvalidParticleRate => ConfigError::InvalidParticleRate(
                                    arg.clone(),
                                ),
                                ConfigFault::InvalidParticleMesh => ConfigError::InvalidParticleMesh(
                                    arg.clone(),
                                ),
                            },
                        );
                    },
                    None => {},
                }
            }
        }
        if cfg.systems.len() == 0 {
            cfg.systems.push(scfg);
            proof {
                assert(cfg@ =~= seq![scfg@]);
            }
        }
        Ok(cfg)
    }
}

} // verus!
