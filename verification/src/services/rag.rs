//! The context block and instructions of a retrieval-augmented answer.
use vstd::prelude::*;

use crate::text::{decimal, decimal_string};

verus! {

/// The answer given when the knowledge base holds nothing relevant.
pub const NO_CONTEXT_ANSWER: &'static str = "No relevant context found in the knowledge base.";

/// The answer given without asking the model, by how many snippets were
/// retrieved: the no-context answer when there are none; else none, and the
/// model is asked.
pub fn answer_without_model(snippet_count: usize) -> (r: Option<&'static str>)
    ensures
        r == (if snippet_count == 0 {
            Some(NO_CONTEXT_ANSWER)
        } else {
            None
        }),
{
    if snippet_count == 0 {
        Some(NO_CONTEXT_ANSWER)
    } else {
        None
    }
}

/// One retrieved snippet: its source file, entity type and name when it
/// comes from code, its similarity already written with three decimals,
/// and its content.
#[derive(Debug, Clone)]
pub struct ContextSnippet {
    pub source_file: String,
    pub entity_type: Option<String>,
    pub entity_name: Option<String>,
    pub similarity: String,
    pub content: String,
}

/// The `Type:` line of a snippet, present when both type and name are known.
pub open spec fn type_line_of(t: Option<Seq<char>>, n: Option<Seq<char>>) -> Seq<char> {
    match (t, n) {
        (Some(t), Some(n)) => "    Type: "@ + t + " — "@ + n + "\n"@,
        _ => seq![],
    }
}

/// Model of an optional string.
pub open spec fn opt_text(o: Option<String>) -> Option<Seq<char>> {
    match o {
        Some(s) => Some(s@),
        None => None,
    }
}

/// The block of one snippet, numbered from 1.
pub open spec fn snippet_text(i: nat, s: ContextSnippet) -> Seq<char> {
    "["@ + decimal(i) + "] Source: "@ + s.source_file@ + "\n"@ + type_line_of(
        opt_text(s.entity_type),
        opt_text(s.entity_name),
    ) + "    Similarity: "@ + s.similarity@ + "\n    "@ + s.content@ + "\n\n"@
}

/// The blocks of the first `k` snippets, in order.
pub open spec fn context_text_of(snips: Seq<ContextSnippet>, k: int) -> Seq<char>
    decreases k,
{
    if k <= 0 {
        seq![]
    } else {
        context_text_of(snips, k - 1) + snippet_text(k as nat, snips[k - 1])
    }
}

fn append_type_line(out: &mut String, c: &ContextSnippet)
    ensures
        final(out)@ == old(out)@ + type_line_of(opt_text(c.entity_type), opt_text(c.entity_name)),
{
    match (&c.entity_type, &c.entity_name) {
        (Some(t), Some(nm)) => {
            out.append("    Type: ");
            out.append(t.as_str());
            out.append(" — ");
            out.append(nm.as_str());
            out.append("\n");
        },
        _ => {
            proof {
                assert(old(out)@ + Seq::<char>::empty() =~= old(out)@);
            }
        },
    }
}

fn append_snippet(out: &mut String, n: usize, c: &ContextSnippet)
    ensures
        final(out)@ == old(out)@ + snippet_text(n as nat, *c),
{
    let num = decimal_string(n);
    out.append("[");
    out.append(num.as_str());
    out.append("] Source: ");
    out.append(c.source_file.as_str());
    out.append("\n");
    append_type_line(out, c);
    out.append("    Similarity: ");
    out.append(c.similarity.as_str());
    out.append("\n    ");
    out.append(c.content.as_str());
    out.append("\n\n");
    proof {
        assert(out@ =~= old(out)@ + snippet_text(n as nat, *c));
    }
}

/// The numbered context block of the retrieved snippets.
pub fn build_context_string(contexts: &Vec<ContextSnippet>) -> (r: String)
    ensures
        r@ == context_text_of(contexts@, contexts@.len() as int),
{
    let mut out = String::new();
    let mut i: usize = 0;
    while i < contexts.len()
        invariant
            i <= contexts@.len(),
            out@ == context_text_of(contexts@, i as int),
        decreases contexts@.len() - i,
    {
        append_snippet(&mut out, i + 1, &contexts[i]);
        i = i + 1;
    }
    out
}

/// The instructions of the answering model, with the context block.
pub open spec fn rag_preamble_of(context: Seq<char>) -> Seq<char> {
    "You are a helpful assistant. Answer questions using only the provided context.\n\nContext:\n"@
        + context + "\n\nInstructions:\n- Use ONLY the APIs, functions, types, and patterns shown in the context above.\n- The context is the source of truth; do not invent types or functions not present.\n- Cite which context snippets you used: [1], [2], etc.\n- When writing code, provide complete, working examples.\n- If the context does not contain enough information, clearly state what is missing."@
}

/// The instructions of the answering model, with the context block.
pub fn rag_preamble(context: &str) -> (r: String)
    ensures
        r@ == rag_preamble_of(context@),
{
    crate::text::concat3(
        "You are a helpful assistant. Answer questions using only the provided context.\n\nContext:\n",
        context,
        "\n\nInstructions:\n- Use ONLY the APIs, functions, types, and patterns shown in the context above.\n- The context is the source of truth; do not invent types or functions not present.\n- Cite which context snippets you used: [1], [2], etc.\n- When writing code, provide complete, working examples.\n- If the context does not contain enough information, clearly state what is missing.",
    )
}

} // verus!
