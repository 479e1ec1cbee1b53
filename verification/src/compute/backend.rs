//! The one-time initialization of the backend, as a state machine: the
//! library decides whether the backend is to be initialized and with what,
//! the caller performs the initialization and reports the status it got.

use vstd::prelude::*;

verus! {

/// The backends that the computation can run on.
#[derive(Clone, Copy, Debug, PartialEq, Eq, Structural)]
pub enum Backend {
    CPU,
    GPU,
}

impl Backend {
    /// The identifier the backend is selected by.
    pub open spec fn spec_value(&self) -> u32 {
        match self {
            Backend::CPU => 1,
            Backend::GPU => 2,
        }
    }

    /// The identifier the backend is selected by.
    pub fn value(&self) -> (id: u32)
        ensures
            id == self.spec_value(),
    {
        match self {
            Backend::CPU => 1,
            Backend::GPU => 2,
        }
    }
}

/// The number of generators that are precomputed where the caller does not
/// say how many.
pub const DEFAULT_PRECOMPUTED_GENERATORS: u64 = 20;

/// Configuration values of the chosen backend.
#[derive(Clone, Copy, Debug, PartialEq, Eq, Structural)]
pub struct BackendConfig {
    /// The total number of precomputed values to be generated.
    pub num_precomputed_generators: u64,
}

/// What the backend is initialized with.
#[derive(Clone, Copy, Debug, PartialEq, Eq, Structural)]
pub struct SxtConfig {
    /// The identifier of the backend.
    pub backend: i32,
    /// The number of generators to precompute.
    pub num_precomputed_generators: u64,
}

/// How far the initialization of the backend has come.
#[derive(Clone, Copy, Debug, PartialEq, Eq, Structural)]
pub enum InitState {
    /// Nobody has asked for the backend yet.
    Uninitialized,
    /// The first caller has been told to initialize the backend with this
    /// configuration, and has not reported back.
    Started(SxtConfig),
    /// The backend was initialized with this configuration and returned this
    /// status: zero for success.
    Finished(SxtConfig, i32),
}

/// The handle to the backend of the process.
#[derive(Clone, Copy, Debug, PartialEq, Eq, Structural)]
pub struct BackendHandle {
    pub state: InitState,
}

/// The configuration that `backend` is initialized with to precompute
/// `num_precomputed_generators` generators.
pub open spec fn config_for(backend: Backend, num_precomputed_generators: u64) -> SxtConfig {
    SxtConfig { backend: backend.spec_value() as i32, num_precomputed_generators }
}

impl BackendHandle {
    /// The handle of a backend that nobody has asked for yet.
    pub fn new() -> (handle: Self)
        ensures
            handle.state == InitState::Uninitialized,
    {
        BackendHandle { state: InitState::Uninitialized }
    }

    /// The configuration that the backend is, or is being, initialized with.
    pub open spec fn config(&self) -> Option<SxtConfig> {
        match self.state {
            InitState::Uninitialized => None,
            InitState::Started(config) => Some(config),
            InitState::Finished(config, _) => Some(config),
        }
    }

    /// The backend is initialized and ready for use.
    pub open spec fn ready(&self) -> bool {
        self.state matches InitState::Finished(_, status) && status == 0
    }

    /// Whether the backend is initialized and ready for use. Every operation
    /// on the backend asks this after it has asked for the initialization;
    /// where the answer is no, the initialization has failed for good.
    pub fn is_ready(&self) -> (ready: bool)
        ensures
            ready == self.ready(),
    {
        match self.state {
            InitState::Finished(_, status) => status == 0,
            _ => false,
        }
    }

    /// Records the status that the backend returned from its initialization.
    pub fn finish(&mut self, status: i32)
        requires
            old(self).state is Started,
        ensures
            final(self).state == InitState::Finished(old(self).config().unwrap(), status),
    {
        match self.state {
            InitState::Started(config) => {
                self.state = InitState::Finished(config, status);
            },
            _ => {},
        }
    }
}

/// Asks for the backend to be initialized, with the default number of
/// precomputed generators.
///
/// The very first call returns the configuration to initialize the backend
/// with; every later call returns nothing and changes nothing.
pub fn init_backend(handle: &mut BackendHandle, backend: Backend) -> (action: Option<SxtConfig>)
    ensures
        old(handle).state is Uninitialized ==> action == Some(
            config_for(backend, DEFAULT_PRECOMPUTED_GENERATORS),
        ) && final(handle).state == InitState::Started(action.unwrap()),
        !(old(handle).state is Uninitialized) ==> action.is_none() && *final(handle) == *old(
            handle,
        ),
{
    init_backend_with_config(
        handle,
        backend,
        BackendConfig { num_precomputed_generators: DEFAULT_PRECOMPUTED_GENERATORS },
    )
}

/// Asks for the backend to be initialized with the configuration `config`.
///
/// The configuration of the first caller wins: the very first call returns
/// the configuration to initialize the backend with; every later call
/// returns nothing and changes nothing, whatever its configuration.
pub fn init_backend_with_config(
    handle: &mut BackendHandle,
    backend: Backend,
    config: BackendConfig,
) -> (action: Option<SxtConfig>)
    ensures
        old(handle).state is Uninitialized ==> action == Some(
            config_for(backend, config.num_precomputed_generators),
        ) && final(handle).state == InitState::Started(action.unwrap()),
        !(old(handle).state is Uninitialized) ==> action.is_none() && *final(handle) == *old(
            handle,
        ),
{
    match handle.state {
        InitState::Uninitialized => {
            let config = SxtConfig {
                backend: backend.value() as i32,
                num_precomputed_generators: config.num_precomputed_generators,
            };
            handle.state = InitState::Started(config);
            Some(config)
        },
        _ => None,
    }
}

} // verus!
