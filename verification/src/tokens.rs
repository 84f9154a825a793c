//! The escape grammar for message arguments: each raw token given to a send
//! command stands for nothing, for a stdin read, for a streaming read, or for
//! a literal message.

use vstd::prelude::*;

use crate::errors::Error;
use crate::text::str_eq;

verus! {

/// What one raw token asks for.
pub enum TokenAction {
    /// Nothing is sent for this token (empty, or the reserved `--`).
    Skip,
    /// Read stdin once: one prompted line on a terminal, the whole pipe
    /// otherwise; the text read becomes one message.
    ReadOnce,
    /// Read stdin line by line until end of input; every line becomes its own
    /// message, sent before the next line is read.
    Stream,
    /// The token itself, unescaped, is the message.
    Literal(String),
}

/// The mathematical value of a token action.
pub enum ActionView {
    Skip,
    ReadOnce,
    Stream,
    Literal(Seq<char>),
}

impl View for TokenAction {
    type V = ActionView;

    open spec fn view(&self) -> ActionView {
        match self {
            TokenAction::Skip => ActionView::Skip,
            TokenAction::ReadOnce => ActionView::ReadOnce,
            TokenAction::Stream => ActionView::Stream,
            TokenAction::Literal(s) => ActionView::Literal(s@),
        }
    }
}

/// The meaning of one raw token: empty and `--` are skipped; `-` reads stdin
/// once; `_` streams stdin; the four backslash forms stand for the literals
/// `-`, `_`, `--` and `---`; anything else is itself the message.
pub open spec fn classify_spec(t: Seq<char>) -> ActionView {
    if t.len() == 0 || t == "--"@ {
        ActionView::Skip
    } else if t == "-"@ {
        ActionView::ReadOnce
    } else if t == "_"@ {
        ActionView::Stream
    } else if t == "\\-"@ {
        ActionView::Literal("-"@)
    } else if t == "\\_"@ {
        ActionView::Literal("_"@)
    } else if t == "\\-\\-"@ {
        ActionView::Literal("--"@)
    } else if t == "\\-\\-\\-"@ {
        ActionView::Literal("---"@)
    } else {
        ActionView::Literal(t)
    }
}

/// Classifies one raw token.
pub fn classify(t: &str) -> (r: TokenAction)
    ensures
        r@ == classify_spec(t@),
{
    if t.is_empty() || str_eq(t, "--") {
        TokenAction::Skip
    } else if str_eq(t, "-") {
        TokenAction::ReadOnce
    } else if str_eq(t, "_") {
        TokenAction::Stream
    } else if str_eq(t, "\\-") {
        TokenAction::Literal(literal_str("-"))
    } else if str_eq(t, "\\_") {
        TokenAction::Literal(literal_str("_"))
    } else if str_eq(t, "\\-\\-") {
        TokenAction::Literal(literal_str("--"))
    } else if str_eq(t, "\\-\\-\\-") {
        TokenAction::Literal(literal_str("---"))
    } else {
        TokenAction::Literal(t.to_owned())
    }
}

/// An owned copy of the text.
fn literal_str(s: &str) -> (r: String)
    ensures
        r@ == s@,
{
    s.to_owned()
}

/// The plan for a whole argument list: stdin can be consumed only once, so
/// after a first `-` or `_` any further `-` or `_` is taken literally.
pub open spec fn plan_spec(tokens: Seq<Seq<char>>, used: bool) -> Seq<ActionView>
    decreases tokens.len(),
{
    if tokens.len() == 0 {
        Seq::empty()
    } else {
        let a = classify_spec(tokens[0]);
        let demoted = match a {
            ActionView::ReadOnce => used,
            ActionView::Stream => used,
            _ => false,
        };
        let first = if demoted {
            ActionView::Literal(tokens[0])
        } else {
            a
        };
        let now_used = used || a is ReadOnce || a is Stream;
        seq![first] + plan_spec(tokens.skip(1), now_used)
    }
}

/// Plans a whole argument list, applying the once-only stdin rule.
pub fn plan_tokens(tokens: &Vec<String>) -> (r: Vec<TokenAction>)
    ensures
        r@.map_values(|a: TokenAction| a@) == plan_spec(
            tokens@.map_values(|t: String| t@),
            false,
        ),
{
    let ghost tv = tokens@.map_values(|t: String| t@);
    let n = tokens.len();
    let mut used = false;
    let mut out: Vec<TokenAction> = Vec::new();
    let mut i: usize = 0;
    proof {
        assert(tv.skip(0) =~= tv);
        assert(out@.map_values(|a: TokenAction| a@) =~= Seq::<ActionView>::empty());
    }
    while i < n
        invariant
            i <= n,
            n == tokens@.len(),
            tv == tokens@.map_values(|t: String| t@),
            plan_spec(tv, false) == out@.map_values(|a: TokenAction| a@) + plan_spec(
                tv.skip(i as int),
                used,
            ),
        decreases n - i,
    {
        let ghost before = out@.map_values(|a: TokenAction| a@);
        let a = classify(tokens[i].as_str());
        let demoted = match a {
            TokenAction::ReadOnce => used,
            TokenAction::Stream => used,
            _ => false,
        };
        let now_used = used || matches!(a, TokenAction::ReadOnce) || matches!(
            a,
            TokenAction::Stream,
        );
        let chosen = if demoted {
            TokenAction::Literal(tokens[i].clone())
        } else {
            a
        };
        let ghost cv = chosen@;
        out.push(chosen);
        proof {
            assert(tv.skip(i as int)[0] == tv[i as int]);
            assert(tv.skip(i as int).skip(1) =~= tv.skip(i + 1 as int));
            assert(out@.map_values(|x: TokenAction| x@) =~= before.push(cv));
            assert(before.push(cv) =~= before + seq![cv]);
        }
        used = now_used;
        i = i + 1;
    }
    proof {
        assert(tv.skip(n as int) =~= Seq::<Seq<char>>::empty());
        assert(plan_spec(tv.skip(n as int), used) =~= Seq::<ActionView>::empty());
        assert(out@.map_values(|a: TokenAction| a@) + Seq::<ActionView>::empty() =~= out@.map_values(
            |a: TokenAction| a@,
        ));
    }
    out
}

/// The aggregated result of a batch of sends: success exactly when no send
/// failed, else the error kind of the command.
pub fn batch_outcome(failures: usize, kind: Error) -> (r: Result<(), Error>)
    ensures
        failures == 0 ==> r == Result::<(), Error>::Ok(()),
        failures != 0 ==> r == Result::<(), Error>::Err(kind),
{
    if failures == 0 {
        Ok(())
    } else {
        Err(kind)
    }
}

/// A message is sent only when it is not empty; an empty expansion is
/// skipped.
pub fn nonempty_message(s: String) -> (r: Option<String>)
    ensures
        s@.len() == 0 ==> r is None,
        s@.len() != 0 ==> r == Some(s),
{
    if s.as_str().is_empty() {
        None
    } else {
        Some(s)
    }
}

} // verus!
