use vstd::prelude::*;

use crate::config::AppConfig;
use crate::error::RStudioError;

verus! {

/// A call that switches the engine on or off.
#[derive(Debug, Clone, Copy, PartialEq, Eq, Structural)]
pub enum EngineCall {
    Start,
    Stop,
}

/// Hardware-independent engine front: a validated configuration and a run flag.
pub struct AudioEngine {
    config: AppConfig,
    running: bool,
}

impl AudioEngine {
    /// The configuration the engine was created with.
    pub closed spec fn spec_config(&self) -> AppConfig {
        self.config
    }

    /// The engine has been started and not stopped since.
    pub closed spec fn spec_running(&self) -> bool {
        self.running
    }

    /// The engine after `call`: running exactly when the call is `Start`, with its configuration
    /// unchanged.
    pub closed spec fn after_call(self, call: EngineCall) -> AudioEngine {
        AudioEngine { running: call == EngineCall::Start, ..self }
    }

    /// The engine after the calls `calls`, made in order.
    pub open spec fn after_calls(self, calls: Seq<EngineCall>) -> AudioEngine
        decreases calls.len(),
    {
        if calls.len() == 0 {
            self
        } else {
            self.after_calls(calls.drop_last()).after_call(calls.last())
        }
    }

    /// Creates a stopped engine; an invalid configuration is rejected with the error that
    /// `AppConfig::validate` reports.
    pub fn new(config: AppConfig) -> (result: Result<Self, RStudioError>)
        ensures
            result is Ok <==> config.is_valid(),
            result matches Ok(engine) ==> engine.spec_config() == config && !engine.spec_running(),
    {
        match config.validate() {
            Ok(()) => Ok(Self { config, running: false }),
            Err(error) => Err(error),
        }
    }

    pub fn start(&mut self)
        ensures
            *final(self) == old(self).after_call(EngineCall::Start),
            final(self).spec_running(),
            final(self).spec_config() == old(self).spec_config(),
    {
        self.running = true;
    }

    pub fn stop(&mut self)
        ensures
            *final(self) == old(self).after_call(EngineCall::Stop),
            !final(self).spec_running(),
            final(self).spec_config() == old(self).spec_config(),
    {
        self.running = false;
    }

    pub fn is_running(&self) -> (running: bool)
        ensures
            running == self.spec_running(),
    {
        self.running
    }

    pub fn config(&self) -> (config: &AppConfig)
        ensures
            *config == self.spec_config(),
    {
        &self.config
    }
}

/// One start or stop keeps the configuration and sets the run flag to whether it was a start.
pub proof fn lemma_call_keeps_config(engine: AudioEngine, call: EngineCall)
    ensures
        engine.after_call(call).spec_config() == engine.spec_config(),
        engine.after_call(call).spec_running() == (call == EngineCall::Start),
{
}

/// Any sequence of starts and stops keeps the engine's configuration; afterwards the engine runs
/// exactly when the last call was a start, or as before when there was no call.
pub proof fn lemma_calls_keep_config(engine: AudioEngine, calls: Seq<EngineCall>)
    ensures
        engine.after_calls(calls).spec_config() == engine.spec_config(),
        engine.after_calls(calls).spec_running() == if calls.len() == 0 {
            engine.spec_running()
        } else {
            calls.last() == EngineCall::Start
        },
    decreases calls.len(),
{
    if calls.len() > 0 {
        lemma_calls_keep_config(engine, calls.drop_last());
        lemma_call_keeps_config(engine.after_calls(calls.drop_last()), calls.last());
    }
}

} // verus!
