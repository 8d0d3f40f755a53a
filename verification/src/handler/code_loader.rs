//! Preparation of extracted code entities for embedding.
use vstd::prelude::*;

use crate::parser::entity::{entity_type_text, entity_views, CodeEntity, EntityModel, EntityType};
use crate::text::{join, join_with, string_views};
use vstd::utf8::encode_utf8;

verus! {

/// Entities with less content than this many bytes are not embedded.
pub const MIN_CONTENT_LEN: usize = 50;

/// Whether an entity is embedded: not a file, not an import, and with at
/// least `MIN_CONTENT_LEN` bytes of content.
pub open spec fn is_embeddable(e: EntityModel, content_bytes: nat) -> bool {
    e.entity_type != EntityType::File && e.entity_type != EntityType::Import && content_bytes
        >= MIN_CONTENT_LEN
}

/// Byte length of a text in UTF-8, as `str::len` reports it.
pub open spec fn content_bytes(s: Seq<char>) -> nat {
    (encode_utf8(s).len() as usize) as nat
}

/// The content of every import entity, in order.
pub open spec fn import_contents(ents: Seq<EntityModel>) -> Seq<Seq<char>>
    decreases ents.len(),
{
    if ents.len() == 0 {
        seq![]
    } else {
        import_contents(ents.drop_last()) + (if ents.last().entity_type == EntityType::Import {
            seq![ents.last().content]
        } else {
            seq![]
        })
    }
}

/// The contents of the file's imports, one per entry, in order.
pub fn collect_imports(entities: &Vec<CodeEntity>) -> (r: Vec<String>)
    ensures
        string_views(r@) == import_contents(entity_views(entities@)),
{
    let ghost ev = entity_views(entities@);
    let mut out: Vec<String> = Vec::new();
    let mut i: usize = 0;
    proof {
        assert(ev.take(0) =~= Seq::<EntityModel>::empty());
        assert(string_views(out@) =~= import_contents(ev.take(0)));
    }
    while i < entities.len()
        invariant
            ev == entity_views(entities@),
            i <= entities@.len(),
            string_views(out@) == import_contents(ev.take(i as int)),
        decreases entities@.len() - i,
    {
        let ghost before = string_views(out@);
        proof {
            assert(ev.take(i + 1).drop_last() =~= ev.take(i as int));
            assert(ev.take(i + 1).last() == entities@[i as int]@);
        }
        if entities[i].entity_type == EntityType::Import {
            out.push(entities[i].content.clone());
            proof {
                assert(string_views(out@) =~= before + seq![entities@[i as int].content@]);
            }
        } else {
            proof {
                assert(before + Seq::<Seq<char>>::empty() =~= before);
            }
        }
        i = i + 1;
    }
    proof {
        assert(ev.take(entities@.len() as int) =~= ev);
    }
    out
}

/// The text embedded for an entity: the file's import lines, one per line,
/// then a `--- type: qualified name ---` heading line, then the entity's
/// content.
pub open spec fn embedding_text_of(imports: Seq<Seq<char>>, e: EntityModel) -> Seq<char> {
    (if imports.len() == 0 {
        seq![]
    } else {
        join_with(imports, seq!['\n']) + seq!['\n']
    }) + "--- "@ + entity_type_text(e.entity_type) + ": "@ + e.qualified_name + " ---\n"@
        + e.content
}

/// The text embedded for an entity, with the file's imports in front.
pub fn embedding_text(imports: &Vec<String>, entity: &CodeEntity) -> (r: String)
    ensures
        r@ == embedding_text_of(string_views(imports@), entity@),
{
    let mut out = String::new();
    if imports.len() > 0 {
        let nl = crate::text::string_from(vec!['\n'].as_slice());
        let block = join(imports, nl.as_str());
        out.append(block.as_str());
        out.append(nl.as_str());
        proof {
            assert(nl@ =~= seq!['\n']);
        }
    }
    out.append("--- ");
    out.append(entity.entity_type.as_str());
    out.append(": ");
    out.append(entity.qualified_name.as_str());
    out.append(" ---\n");
    out.append(entity.content.as_str());
    proof {
        if imports@.len() == 0 {
            assert(string_views(imports@).len() == 0);
        }
    }
    out
}

/// Whether an entity is embedded: not a file, not an import, and with at
/// least `MIN_CONTENT_LEN` bytes of content.
pub fn embeddable(entity: &CodeEntity) -> (r: bool)
    ensures
        r == is_embeddable(entity@, content_bytes(entity.content@)),
{
    entity.entity_type != EntityType::File && entity.entity_type != EntityType::Import
        && entity.content.as_str().len() >= MIN_CONTENT_LEN
}

} // verus!
