//! Which speech engine is used, and the one that needs no model.
use vstd::prelude::*;

use crate::orchestrator::types::{SentenceSelection, TranscriptCommand};
use crate::text;

verus! {

/// The local speech engines.
#[derive(Debug, Clone, Copy, PartialEq, Eq, Structural)]
pub enum LocalEngine {
    Whisper,
    Fallback,
}

/// The local engine to use, if there is one, by whether Whisper could be loaded,
/// where it is built in.
pub open spec fn engine_for(whisper_loaded: Option<bool>, allow_fallback: bool) -> Option<
    LocalEngine,
> {
    match whisper_loaded {
        Some(true) => Some(LocalEngine::Whisper),
        Some(false) => if allow_fallback {
            Some(LocalEngine::Fallback)
        } else {
            None
        },
        None => Some(LocalEngine::Fallback),
    }
}

/// Whisper is used whenever it can be, and the fallback never in its place; where
/// Whisper fails and no fallback is allowed, and only there, is no engine.
pub proof fn law_whisper_goes_first(whisper_loaded: Option<bool>, allow_fallback: bool)
    ensures
        engine_for(whisper_loaded, allow_fallback) == Some(LocalEngine::Whisper) <==> whisper_loaded
            == Some(true),
        engine_for(whisper_loaded, allow_fallback) is None <==> whisper_loaded == Some(false)
            && !allow_fallback,
{
}

/// The local engine to use: Whisper if it could be loaded, else the fallback if
/// that is allowed, else none, for the reason that Whisper gave. Where Whisper
/// is not built in, the fallback is used.
pub fn build_local_engine(whisper: Option<Result<(), String>>, allow_fallback: bool) -> (r: Result<
    LocalEngine,
    String,
>)
    ensures
        (match r {
            Ok(engine) => Some(engine),
            Err(_) => None,
        }) == engine_for(
            match whisper {
                Some(loaded) => Some(loaded is Ok),
                None => None,
            },
            allow_fallback,
        ),
        match whisper {
            Some(Ok(_)) => r == Ok::<LocalEngine, String>(LocalEngine::Whisper),
            Some(Err(error)) => if allow_fallback {
                r == Ok::<LocalEngine, String>(LocalEngine::Fallback)
            } else {
                r == Err::<LocalEngine, String>(error)
            },
            None => r == Ok::<LocalEngine, String>(LocalEngine::Fallback),
        },
{
    match whisper {
        Some(Ok(_)) => Ok(LocalEngine::Whisper),
        Some(Err(error)) => {
            if allow_fallback {
                Ok(LocalEngine::Fallback)
            } else {
                Err(error)
            }
        },
        None => Ok(LocalEngine::Fallback),
    }
}

/// An engine without a model: it numbers the frames in which something is heard.
pub struct FallbackSpeechEngine {
    counter: u64,
}

impl View for FallbackSpeechEngine {
    type V = nat;

    /// How many frames were numbered.
    closed spec fn view(&self) -> nat {
        self.counter as nat
    }
}

impl Default for FallbackSpeechEngine {
    fn default() -> (r: Self)
        ensures
            r@ == 0,
    {
        FallbackSpeechEngine { counter: 0 }
    }
}

impl FallbackSpeechEngine {
    /// The text for a frame: its number and its level, given as text, if
    /// something is heard in it, else nothing.
    pub fn transcribe(&mut self, heard: bool, level: &str) -> (r: String)
        requires
            old(self)@ < u64::MAX,
        ensures
            heard ==> final(self)@ == old(self)@ + 1 && r@ == "frame#"@ + text::decimal_text(
                old(self)@ + 1,
            ) + ":"@ + level@,
            !heard ==> final(self)@ == old(self)@ && r@ == Seq::<char>::empty(),
    {
        if !heard {
            let silent = String::new();
            assert(silent@ =~= Seq::<char>::empty());
            return silent;
        }
        self.counter = self.counter + 1;
        text::concat4("frame#", text::decimal(self.counter).as_str(), ":", level)
    }
}

/// The command for a choice of sentences, unless nothing is chosen.
pub fn selection_command(selections: Vec<SentenceSelection>) -> (r: Option<TranscriptCommand>)
    ensures
        selections@.len() == 0 ==> r is None,
        selections@.len() > 0 ==> r == Some(TranscriptCommand::ApplySelection(selections)),
{
    if selections.len() == 0 {
        None
    } else {
        Some(TranscriptCommand::ApplySelection(selections))
    }
}

} // verus!
