//! The parser: a trimmed input line becomes a [`PipelineSpec`].
//!
//! The grammar is stated once, mathematically, over `Seq<char>` by
//! [`parse_line`]: a trailing `&` (after trimming) marks background execution
//! and is stripped; the rest splits on `|` into trimmed stage fragments; the
//! first fragment may carry an input redirection after a ` < ` marker and the
//! last fragment an output redirection after a ` > ` marker; each remaining
//! command text tokenizes on whitespace into a program and its arguments.
//! [`parse_command`] is the verified implementation of exactly that function.

use vstd::prelude::*;

use crate::pipeline::{CommandModel, CommandSpec, PipelineModel, PipelineSpec, ShellError};
use crate::text;

verus! {

/// The command text before the first ` < ` or ` > ` marker (the marker's
/// middle character being `mid`), and the trimmed path after it, if the
/// marker occurs in `frag` at all.
pub open spec fn split_redirect(frag: Seq<char>, mid: char) -> (Seq<char>, Option<Seq<char>>) {
    match text::find_marker(frag, mid) {
        None => (frag, None),
        Some(i) => (
            frag.subrange(0, i),
            Some(text::trim(frag.subrange(i + 3, frag.len() as int))),
        ),
    }
}

/// The stage a command text denotes: its first token is the program, the
/// remaining tokens are the arguments.
pub open spec fn stage_of(text: Seq<char>) -> CommandModel {
    CommandModel { program: text::tokens(text)[0], args: text::tokens(text).drop_first() }
}

/// Whether the line's final non-whitespace character is the background
/// marker `&`.
pub open spec fn has_background_marker(s: Seq<char>) -> bool {
    text::trim(s).len() > 0 && text::trim(s).last() == '&'
}

/// The line with surrounding whitespace, every trailing `&`, and the
/// whitespace before those `&` removed: the text the pipeline is parsed from.
pub open spec fn core_of(s: Seq<char>) -> Seq<char> {
    text::trim_back(text::strip_trailing(text::trim(s), '&'))
}

/// The trimmed fragments between the pipe separators.
pub open spec fn parse_frags(core: Seq<char>) -> Seq<Seq<char>> {
    text::split_char(core, '|').map_values(|f: Seq<char>| text::trim(f))
}

/// The input redirection path of the line, if any.
pub open spec fn input_redirect_of(core: Seq<char>) -> Option<Seq<char>> {
    split_redirect(split_input_raw(core), '<').1
}

/// The output redirection path of the line, if any.
pub open spec fn output_redirect_of(core: Seq<char>) -> Option<Seq<char>> {
    split_redirect(parse_frags(core).last(), '>').1
}

/// The pipeline a background-stripped line denotes, or a parse error: the
/// text splits on `|` into trimmed fragments; the last fragment yields the
/// output redirection, the first the input redirection; every fragment's
/// remaining command text must tokenize to at least a program, and a
/// redirection present must name a non-empty path.
pub open spec fn parse_core(core: Seq<char>, background: bool) -> Result<
    PipelineModel,
    ShellError,
> {
    if core.len() == 0 {
        Err(ShellError::ParseError)
    } else {
        let texts = parse_texts(core);
        let bad_in = match input_redirect_of(core) {
            Some(p) => p.len() == 0,
            None => false,
        };
        let bad_out = match output_redirect_of(core) {
            Some(p) => p.len() == 0,
            None => false,
        };
        if bad_in || bad_out {
            Err(ShellError::ParseError)
        } else if exists|i: int| 0 <= i < texts.len() && text::tokens(texts[i]).len() == 0 {
            Err(ShellError::ParseError)
        } else {
            Ok(
                PipelineModel {
                    stages: Seq::new(texts.len(), |i: int| stage_of(texts[i])),
                    input_redirect: input_redirect_of(core),
                    output_redirect: output_redirect_of(core),
                    background,
                },
            )
        }
    }
}

/// The pipeline an input line denotes, or a parse error.
pub open spec fn parse_line(s: Seq<char>) -> Result<PipelineModel, ShellError> {
    parse_core(core_of(s), has_background_marker(s))
}

/// Every successfully parsed line satisfies the data model's invariants:
/// at least one stage, a program in every stage, and redirections that name
/// non-empty trimmed paths.
pub proof fn lemma_parse_line_wf(s: Seq<char>)
    ensures
        match parse_line(s) {
            Ok(m) => m.wf(),
            Err(_) => true,
        },
{
    lemma_parse_core_wf(core_of(s), has_background_marker(s));
}

/// [`lemma_parse_line_wf`], stated of the background-stripped text.
pub proof fn lemma_parse_core_wf(core: Seq<char>, background: bool)
    ensures
        match parse_core(core, background) {
            Ok(m) => m.wf(),
            Err(_) => true,
        },
{
    if core.len() > 0 {
        text::lemma_split_acc_len(core, '|', Seq::empty());
        if parse_core(core, background) is Ok {
            let m = parse_core(core, background)->Ok_0;
            let texts = parse_texts(core);
            assert forall|i: int| 0 <= i < m.stages.len() implies m.stages[i].wf() by {
                assert(text::tokens(texts[i]).len() > 0);
                text::lemma_tokens_acc_nonempty(texts[i], Seq::empty());
            }
            match m.input_redirect {
                Some(p) => {
                    let raw = split_input_raw(core);
                    text::lemma_find_marker_at(raw, '<');
                    text::lemma_trim_props(raw.subrange(
                        text::find_marker(raw, '<')->Some_0 + 3,
                        raw.len() as int,
                    ));
                },
                None => {},
            }
            match m.output_redirect {
                Some(p) => {
                    let raw = parse_frags(core).last();
                    text::lemma_find_marker_at(raw, '>');
                    text::lemma_trim_props(raw.subrange(
                        text::find_marker(raw, '>')->Some_0 + 3,
                        raw.len() as int,
                    ));
                },
                None => {},
            }
        }
    }
}

/// A trailing `&` (after trimming) sets `background` and is consumed before
/// anything else is parsed: the line parses exactly as its background-stripped
/// core does — so the marker reaches no stage's tokens and no redirection
/// path — except that `background` is true, and that core is a strictly
/// shorter prefix of the trimmed line, ending before the marker.
pub proof fn lemma_background_marker(s: Seq<char>)
    requires
        text::trim(s).len() > 0,
        text::trim(s).last() == '&',
    ensures
        has_background_marker(s),
        core_of(s).len() < text::trim(s).len(),
        core_of(s) == text::trim(s).subrange(0, core_of(s).len() as int),
        parse_line(s) == (match parse_core(core_of(s), false) {
            Ok(m) => Ok::<PipelineModel, ShellError>(
                PipelineModel {
                    stages: m.stages,
                    input_redirect: m.input_redirect,
                    output_redirect: m.output_redirect,
                    background: true,
                },
            ),
            Err(e) => Err::<PipelineModel, ShellError>(e),
        }),
{
    let t = text::trim(s);
    let y = text::strip_trailing(t, '&');
    text::lemma_strip_trailing_props(t, '&');
    text::lemma_trim_back_props(y);
    let core = core_of(s);
    if y.len() == t.len() {
        assert(t.subrange(0, t.len() as int) =~= t);
        assert(y.last() == '&');
        assert(false);
    }
    assert(core =~= t.subrange(0, core.len() as int));
    if parse_core(core, false) is Ok {
        let m0 = parse_core(core, false)->Ok_0;
        let m1 = parse_core(core, true)->Ok_0;
        assert(m1 == PipelineModel {
            stages: m0.stages,
            input_redirect: m0.input_redirect,
            output_redirect: m0.output_redirect,
            background: true,
        });
    }
}

/// The fragment the input redirection is sought in: the single fragment
/// after output stripping, or the first of several fragments.
pub open spec fn split_input_raw(core: Seq<char>) -> Seq<char> {
    let frags = parse_frags(core);
    if frags.len() == 1 {
        split_redirect(frags.last(), '>').0
    } else {
        frags.first()
    }
}

/// The command texts of the stages, after redirection stripping.
pub open spec fn parse_texts(core: Seq<char>) -> Seq<Seq<char>> {
    let frags = parse_frags(core);
    let n = frags.len() as int;
    let last_text = split_redirect(frags.last(), '>').0;
    let first_text = split_redirect(split_input_raw(core), '<').0;
    if n == 1 {
        seq![first_text]
    } else {
        seq![first_text] + frags.subrange(1, n - 1) + seq![last_text]
    }
}

/// Parses one trimmed, non-empty input line into a pipeline description.
///
/// The result is exactly what [`parse_line`] says of the line's characters,
/// and a successful parse satisfies the data model's invariants.
pub fn parse_command(input: &str) -> (r: Result<PipelineSpec, ShellError>)
    ensures
        match r {
            Ok(p) => parse_line(input@) == Ok::<PipelineModel, ShellError>(p@) && p@.wf(),
            Err(e) => parse_line(input@) == Err::<PipelineModel, ShellError>(e),
        },
{
    proof {
        lemma_parse_line_wf(input@);
    }
    let trimmed = text::trim_str(input);
    let tn: usize = trimmed.unicode_len();
    let background = tn > 0 && trimmed.get_char(tn - 1) == '&';
    proof {
        assert(background == has_background_marker(input@));
    }
    // Strip every trailing '&', then the whitespace before it.
    let mut hi: usize = tn;
    proof {
        assert(trimmed@.subrange(0, tn as int) =~= trimmed@);
    }
    while hi > 0 && trimmed.get_char(hi - 1) == '&'
        invariant
            0 <= hi <= tn,
            tn == trimmed@.len(),
            text::strip_trailing(trimmed@, '&') == text::strip_trailing(
                trimmed@.subrange(0, hi as int),
                '&',
            ),
        decreases hi,
    {
        proof {
            let part = trimmed@.subrange(0, hi as int);
            assert(part.drop_last() =~= trimmed@.subrange(0, hi as int - 1));
        }
        hi = hi - 1;
    }
    proof {
        let part = trimmed@.subrange(0, hi as int);
        assert(text::strip_trailing(part, '&') == part);
    }
    let ghost stripped = trimmed@.subrange(0, hi as int);
    while hi > 0 && text::space_char(trimmed.get_char(hi - 1))
        invariant
            0 <= hi <= tn,
            tn == trimmed@.len(),
            text::trim_back(stripped) == text::trim_back(trimmed@.subrange(0, hi as int)),
            stripped == text::strip_trailing(trimmed@, '&'),
        decreases hi,
    {
        proof {
            let part = trimmed@.subrange(0, hi as int);
            assert(part.drop_last() =~= trimmed@.subrange(0, hi as int - 1));
        }
        hi = hi - 1;
    }
    proof {
        let part = trimmed@.subrange(0, hi as int);
        assert(text::trim_back(part) == part);
    }
    let core = trimmed.substring_char(0, hi);
    proof {
        assert(core@ == core_of(input@));
    }
    if core.unicode_len() == 0 {
        return Err(ShellError::ParseError);
    }
    // Split on the pipe separator and trim each fragment.
    let frags_raw = text::split_str(core, '|');
    let ghost frags_m = parse_frags(core@);
    let mut frags: Vec<&str> = Vec::new();
    let mut k: usize = 0;
    while k < frags_raw.len()
        invariant
            0 <= k <= frags_raw.len(),
            frags_raw.deep_view() == text::split_char(core@, '|'),
            frags_m == parse_frags(core@),
            frags.len() == k,
            forall|j: int| 0 <= j < k ==> frags.deep_view()[j] == frags_m[j],
        decreases frags_raw.len() - k,
    {
        let f = text::trim_str(frags_raw[k]);
        let ghost old_dv = frags.deep_view();
        frags.push(f);
        proof {
            assert(frags.deep_view() =~= old_dv.push(f@));
        }
        k = k + 1;
    }
    proof {
        assert(frags.deep_view() =~= frags_m);
        text::lemma_split_acc_len(core@, '|', Seq::empty());
    }
    let n = frags.len();
    // Output redirection in the last fragment.
    let last_frag: &str = frags[n - 1];
    let (last_text, out_red): (&str, Option<String>) = match text::find_marker_str(last_frag, '>') {
        None => (last_frag, None),
        Some(i) => {
            let m = last_frag.unicode_len();
            proof {
                text::lemma_find_marker_at(last_frag@, '>');
                assert(i as int + 3 <= m as int);
            }
            let right = text::trim_str(last_frag.substring_char(i + 3, m));
            if right.unicode_len() == 0 {
                return Err(ShellError::ParseError);
            }
            (last_frag.substring_char(0, i), Some(String::from_str(right)))
        },
    };
    proof {
        assert(frags_m.last() == last_frag@);
        assert(last_text@ == split_redirect(frags_m.last(), '>').0);
    }
    // Input redirection in the first fragment (after output stripping, when
    // there is only one fragment).
    let first_raw: &str = if n == 1 {
        last_text
    } else {
        frags[0]
    };
    proof {
        assert(first_raw@ == split_input_raw(core@));
    }
    let (first_text, in_red): (&str, Option<String>) = match text::find_marker_str(first_raw, '<') {
        None => (first_raw, None),
        Some(i) => {
            let m = first_raw.unicode_len();
            proof {
                text::lemma_find_marker_at(first_raw@, '<');
                assert(i as int + 3 <= m as int);
            }
            let right = text::trim_str(first_raw.substring_char(i + 3, m));
            if right.unicode_len() == 0 {
                return Err(ShellError::ParseError);
            }
            (first_raw.substring_char(0, i), Some(String::from_str(right)))
        },
    };
    proof {
        assert(first_text@ == split_redirect(split_input_raw(core@), '<').0);
    }
    // The command texts, in stage order.
    let ghost texts_m = parse_texts(core@);
    let mut texts: Vec<&str> = Vec::new();
    texts.push(first_text);
    if n > 1 {
        let mut k: usize = 1;
        while k < n - 1
            invariant
                1 <= k <= n - 1,
                n == frags.len(),
                n > 1,
                frags.deep_view() == frags_m,
                texts.len() == k,
                texts.deep_view()[0] == split_redirect(split_input_raw(core@), '<').0,
                forall|j: int| 1 <= j < k ==> texts.deep_view()[j] == frags_m[j],
            decreases n - k,
        {
            let f: &str = frags[k];
            let ghost old_dv = texts.deep_view();
            texts.push(f);
            proof {
                assert(texts.deep_view() =~= old_dv.push(f@));
            }
            k = k + 1;
        }
        let ghost old_dv = texts.deep_view();
        texts.push(last_text);
        proof {
            assert(texts.deep_view() =~= old_dv.push(last_text@));
        }
    }
    proof {
        assert(texts.deep_view() =~= texts_m);
    }
    // Tokenize each command text into a program and its arguments.
    let mut stages: Vec<CommandSpec> = Vec::new();
    let mut k: usize = 0;
    while k < texts.len()
        invariant
            0 <= k <= texts.len(),
            texts.deep_view() == texts_m,
            texts_m == parse_texts(core@),
            core@ == core_of(input@),
            core@.len() > 0,
            stages.len() == k,
            forall|j: int|
                0 <= j < k ==> text::tokens(texts_m[j]).len() > 0 && stages@[j]@ == stage_of(
                    texts_m[j],
                ),
        decreases texts.len() - k,
    {
        let mut toks = text::tokenize(texts[k]);
        if toks.len() == 0 {
            proof {
                assert(text::tokens(texts_m[k as int]).len() == 0);
                assert(exists|i: int|
                    0 <= i < parse_texts(core@).len() && text::tokens(parse_texts(core@)[i]).len()
                        == 0);
            }
            return Err(ShellError::ParseError);
        }
        let ghost toks_dv = toks.deep_view();
        let program = toks.remove(0);
        proof {
            assert(toks.deep_view() =~= toks_dv.drop_first());
        }
        let stage = CommandSpec { program, args: toks };
        stages.push(stage);
        k = k + 1;
    }
    let result = PipelineSpec {
        stages,
        input_redirect: in_red,
        output_redirect: out_red,
        background,
    };
    proof {
        assert(!(exists|i: int| 0 <= i < texts_m.len() && text::tokens(texts_m[i]).len() == 0));
        let m = parse_core(core_of(input@), has_background_marker(input@))->Ok_0;
        assert(result@.stages =~= m.stages);
        assert(result@ == m);
    }
    Ok(result)
}

} // verus!
