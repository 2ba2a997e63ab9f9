//! Hybrid mode: LanguageTool for the correction, a model for the rewordings.
use vstd::prelude::*;

use super::{AiError, AiResult};

verus! {

/// Runs LanguageTool (`lt`) and a model (`ai`) on the same text; the
/// correction comes from LanguageTool, the five rewordings from the model.
pub struct HybridProvider<L, A> {
    pub lt: L,
    pub ai: A,
}

impl<L, A> HybridProvider<L, A> {
    /// Pairs the two providers.
    pub fn new(lt: L, ai: A) -> (r: Self)
        ensures
            r.lt == lt,
            r.ai == ai,
    {
        HybridProvider { lt, ai }
    }

    /// The hybrid result from both answers: the model's result, whose
    /// correction is replaced by LanguageTool's when LanguageTool succeeded;
    /// the model's error if the model failed.
    pub fn combine(lt: Result<AiResult, AiError>, ai: Result<AiResult, AiError>) -> (r: Result<
        AiResult,
        AiError,
    >)
        ensures
            match ai {
                Err(e) => r == Err::<AiResult, AiError>(e),
                Ok(a) => r matches Ok(res) && res.correction == (match lt {
                    Ok(l) => l.correction,
                    Err(_) => a.correction,
                }) && res.simple == a.simple && res.professional == a.professional && res.formal
                    == a.formal && res.short == a.short && res.creative == a.creative,
            },
    {
        let mut result = match ai {
            Ok(a) => a,
            Err(e) => {
                return Err(e);
            },
        };
        if let Ok(l) = lt {
            result.correction = l.correction;
        }
        Ok(result)
    }
}

} // verus!
