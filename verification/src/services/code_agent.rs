//! Cleaning of code extracted from a model's answer.
use vstd::prelude::*;

use crate::text::{
    is_prefix, join_with, lines_exec, seq_views, str_eq, string_from, string_views, to_chars,
    trim, trim_chars, trim_of, lines_of, join, lemma_join_lines, lemma_trim_ends_in_text,
};

verus! {

/// Instructions for the model that extracts code from an answer.
pub const CODE_AGENT_PREAMBLE: &'static str = "You are a code extraction agent. Your ONLY job is to extract clean, runnable code from the given text.

Rules:
- Output ONLY valid source code, nothing else
- Include all necessary imports/use statements at the top
- Include all necessary type definitions, structs, enums that the code depends on
- Remove markdown formatting (no ``` blocks, no language tags)
- Remove explanatory text, comments about what the code does, and citations like [1] [2]
- Preserve code comments that are part of the actual source code
- If the text contains multiple code snippets, combine them into a single coherent file
- If the text contains no code at all, output exactly: // No code found
- Ensure the code compiles (add any missing closing braces, semicolons, etc.)
- Do not invent new code — only clean and assemble what is present";

/// The marker the extraction model answers when there is no code.
pub const NO_CODE_MARKER: &'static str = "// No code found";

/// A markdown code fence line: ``` possibly followed by a language tag.
pub open spec fn is_fence_line(line: Seq<char>) -> bool {
    is_prefix("```"@, trim_of(line))
}

/// The lines that are not code fences, in order.
pub open spec fn without_fences(lines: Seq<Seq<char>>) -> Seq<Seq<char>>
    decreases lines.len(),
{
    if lines.len() == 0 {
        seq![]
    } else {
        without_fences(lines.drop_last()) + (if is_fence_line(lines.last()) {
            seq![]
        } else {
            seq![lines.last()]
        })
    }
}

/// Law of fence removal: the lines kept are the lines that are not fences,
/// each unchanged and in their order; so when no line is a fence every
/// line is kept.
pub proof fn lemma_only_fences_removed(lines: Seq<Seq<char>>)
    ensures
        without_fences(lines) == lines.filter(|l: Seq<char>| !is_fence_line(l)),
        (forall|i: int| 0 <= i < lines.len() ==> !is_fence_line(#[trigger] lines[i])) ==> without_fences(
            lines,
        ) == lines,
    decreases lines.len(),
{
    reveal(Seq::filter);
    if lines.len() > 0 {
        lemma_only_fences_removed(lines.drop_last());
        if forall|i: int| 0 <= i < lines.len() ==> !is_fence_line(#[trigger] lines[i]) {
            assert forall|i: int| 0 <= i < lines.drop_last().len() implies !is_fence_line(
                #[trigger] lines.drop_last()[i],
            ) by {
                assert(lines.drop_last()[i] == lines[i]);
            }
            assert(!is_fence_line(lines[lines.len() - 1]));
            assert(lines.drop_last() + seq![lines.last()] =~= lines);
        }
        assert(lines.drop_last().filter(|l: Seq<char>| !is_fence_line(l)) + seq![lines.last()]
            =~= lines.drop_last().filter(|l: Seq<char>| !is_fence_line(l)).push(lines.last()));
    }
}

/// The text trimmed, with every code fence line removed, lines joined by `\n`.
pub open spec fn stripped_of_fences(text: Seq<char>) -> Seq<char> {
    join_with(without_fences(lines_of(trim_of(text))), seq!['\n'])
}

/// Law of fence stripping on a text without fence lines: when no line of
/// the trimmed text is a fence and it holds no carriage return, stripping
/// gives the trimmed text back unchanged, indentation included.
pub proof fn lemma_unfenced_text_kept(text: Seq<char>)
    ensures
        (!trim_of(text).contains('\r') && forall|i: int|
            0 <= i < lines_of(trim_of(text)).len() ==> !is_fence_line(
                #[trigger] lines_of(trim_of(text))[i],
            )) ==> stripped_of_fences(text) == trim_of(text),
{
    let t = trim_of(text);
    if !t.contains('\r') && forall|i: int| 0 <= i < lines_of(t).len() ==> !is_fence_line(
        #[trigger] lines_of(t)[i],
    ) {
        lemma_only_fences_removed(lines_of(t));
        lemma_trim_ends_in_text(text);
        lemma_join_lines(t);
    }
}

/// Removes markdown code fences from a model's answer: the text is trimmed
/// and every line that starts (after indentation) with ``` is dropped.
pub fn strip_markdown_fences(text: &str) -> (r: String)
    ensures
        r@ == stripped_of_fences(text@),
{
    let t = trim(text);
    let tc = to_chars(t.as_str());
    let ls = lines_exec(tc.as_slice());
    let ghost lv = seq_views(ls@);
    let fence: Vec<char> = to_chars("```");
    let mut kept: Vec<String> = Vec::new();
    let mut i: usize = 0;
    proof {
        assert(string_views(kept@) =~= without_fences(lv.take(0)));
    }
    while i < ls.len()
        invariant
            lv == seq_views(ls@),
            fence@ == "```"@,
            i <= ls@.len(),
            string_views(kept@) == without_fences(lv.take(i as int)),
        decreases ls@.len() - i,
    {
        let ghost before = string_views(kept@);
        proof {
            assert(lv[i as int] == ls@[i as int]@);
            assert(lv.take(i + 1).drop_last() =~= lv.take(i as int));
            assert(lv.take(i + 1).last() == lv[i as int]);
        }
        let tl = trim_chars(ls[i].as_slice());
        if !crate::text::starts_with(tl.as_slice(), fence.as_slice()) {
            kept.push(string_from(ls[i].as_slice()));
            proof {
                assert(string_views(kept@) =~= before.push(lv[i as int]));
                assert(before.push(lv[i as int]) =~= before + seq![lv[i as int]]);
            }
        } else {
            proof {
                assert(before + Seq::<Seq<char>>::empty() =~= before);
            }
        }
        i = i + 1;
    }
    proof {
        assert(lv.take(ls@.len() as int) =~= lv);
    }
    let sep: Vec<char> = vec!['\n'];
    let sep_s = string_from(sep.as_slice());
    proof {
        assert(sep@ =~= seq!['\n']);
    }
    join(&kept, sep_s.as_str())
}

/// Whether cleaned code is worth saving: something is left after trimming
/// and it is not the no-code marker.
pub open spec fn has_code(cleaned: Seq<char>) -> bool {
    trim_of(cleaned).len() > 0 && trim_of(cleaned) != NO_CODE_MARKER@
}

/// Whether cleaned code should be written to the output file.
pub fn should_save_code(cleaned: &str) -> (r: bool)
    ensures
        r == has_code(cleaned@),
{
    let t = trim(cleaned);
    t.as_str().unicode_len() > 0 && !str_eq(t.as_str(), NO_CODE_MARKER)
}

/// The request sent to the extraction model for an answer.
pub fn extraction_prompt(llm_response: &str) -> (r: String)
    ensures
        r@ == "Extract the clean, runnable code from this text:\n\n"@ + llm_response@,
{
    crate::text::concat("Extract the clean, runnable code from this text:\n\n", llm_response)
}

} // verus!
