//! The opacity resolver: raw per-field directive tokens are mapped to one
//! resolved `Directive`. When several tokens stand on one field, the fixed
//! priority `Hidden` over `Clear` over `Skip` decides; no token at all means
//! `Default`. A token outside the vocabulary fails resolution.

use vstd::prelude::*;

verus! {

/// Resolved per-field opacity policy.
#[derive(Clone, Copy, Debug, PartialEq, Eq, Structural)]
pub enum Directive {
    /// Defer to the field type's own opaque rule.
    Default,
    /// Show the field in full detail (its transparent rendering).
    Visible,
    /// Replace the field's output by the fixed placeholder `_`.
    Hidden,
    /// Emit nothing for the field, separator included.
    Skip,
}

/// A generation-time failure; once generation fails, the type has no
/// rendering capability at all.
#[derive(Clone, Copy, Debug, PartialEq, Eq, Structural)]
pub enum GenError {
    /// A raw directive token outside the recognized vocabulary.
    InvalidDirective,
    /// A shape the generator cannot classify (a field-less memory block).
    UnsupportedShape,
}

/// A raw token is recognized iff it is one of the three directive words.
pub open spec fn token_ok(t: Seq<char>) -> bool {
    t == "Clear"@ || t == "Hidden"@ || t == "Skip"@
}

/// Every token on the field is recognized.
pub open spec fn tokens_ok(ts: Seq<String>) -> bool {
    forall|i: int| 0 <= i < ts.len() ==> token_ok(#[trigger] ts[i]@)
}

/// What a list of raw tokens resolves to: `Hidden` beats `Clear` beats
/// `Skip`; no token means `Default`. Unrecognized tokens are ignored here;
/// `resolve_tokens` rejects them before this function's answer is used.
pub open spec fn resolve_model(ts: Seq<String>) -> Directive {
    if exists|i: int| 0 <= i < ts.len() && #[trigger] ts[i]@ == "Hidden"@ {
        Directive::Hidden
    } else if exists|i: int| 0 <= i < ts.len() && #[trigger] ts[i]@ == "Clear"@ {
        Directive::Visible
    } else if exists|i: int| 0 <= i < ts.len() && #[trigger] ts[i]@ == "Skip"@ {
        Directive::Skip
    } else {
        Directive::Default
    }
}

/// Resolve one field's raw tokens to its directive, rejecting any token
/// outside the vocabulary.
pub fn resolve_tokens(tokens: &Vec<String>) -> (r: Result<Directive, GenError>)
    ensures
        match r {
            Ok(d) => tokens_ok(tokens@) && d == resolve_model(tokens@),
            Err(e) => !tokens_ok(tokens@) && e == GenError::InvalidDirective,
        },
{
    proof {
        reveal_strlit("Clear");
        reveal_strlit("Hidden");
        reveal_strlit("Skip");
    }
    let clear_word: String = "Clear".to_owned();
    let hidden_word: String = "Hidden".to_owned();
    let skip_word: String = "Skip".to_owned();
    let mut hidden: bool = false;
    let mut visible: bool = false;
    let mut skip: bool = false;
    let mut k: usize = 0;
    while k < tokens.len()
        invariant
            k <= tokens@.len(),
            clear_word@ == "Clear"@,
            hidden_word@ == "Hidden"@,
            skip_word@ == "Skip"@,
            forall|i: int| 0 <= i < k ==> token_ok(#[trigger] tokens@[i]@),
            hidden == exists|i: int| 0 <= i < k && #[trigger] tokens@[i]@ == "Hidden"@,
            visible == exists|i: int| 0 <= i < k && #[trigger] tokens@[i]@ == "Clear"@,
            skip == exists|i: int| 0 <= i < k && #[trigger] tokens@[i]@ == "Skip"@,
        decreases tokens@.len() - k,
    {
        proof {
            reveal_strlit("Clear");
            reveal_strlit("Hidden");
            reveal_strlit("Skip");
            assert("Hidden"@.len() == 6);
            assert("Clear"@.len() == 5);
            assert("Skip"@.len() == 4);
        }
        let t = &tokens[k];
        if *t == hidden_word {
            hidden = true;
        } else if *t == clear_word {
            visible = true;
        } else if *t == skip_word {
            skip = true;
        } else {
            assert(!token_ok(tokens@[k as int]@));
            return Err(GenError::InvalidDirective);
        }
        k = k + 1;
    }
    if hidden {
        Ok(Directive::Hidden)
    } else if visible {
        Ok(Directive::Visible)
    } else if skip {
        Ok(Directive::Skip)
    } else {
        Ok(Directive::Default)
    }
}

} // verus!
