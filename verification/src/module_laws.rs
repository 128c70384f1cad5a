//! Laws of the modules of pipelines: each goes by its name and takes its members.
use crate::file_laws::{has_text, lacks_member};
use crate::format::{parsed_format, OutputFormat};
use crate::json::JsonModel;
use crate::pipeline::{ClassifyModel, FilterModel, RouteTable, RouterModel, TransformModel};
use crate::pipeline_config::{
    byte_at, classify_module, compact, filter_module, hex_bytes_named, hex_pair, output_map,
    pipeline_of, router_module, transform_chain, transform_module,
};
use crate::settings::{string_list_member, ObjectModel};
use crate::table::found;
use crate::text::{hex_byte, hex_bytes, is_white};
use crate::text_laws::law_hex_byte;
use vstd::prelude::*;

verus! {

/// The outcome without what was said of a failure.
pub open spec fn gives<T>(r: Result<T, Seq<char>>, value: T) -> bool {
    r == Ok::<T, Seq<char>>(value)
}

// ---------------------------------------------------------------------------
// Bytes
// ---------------------------------------------------------------------------

proof fn lemma_no_white(s: Seq<char>)
    requires
        forall|i: int| 0 <= i < s.len() ==> !is_white(#[trigger] s[i]),
    ensures
        compact(s) == s,
    decreases s.len(),
{
    reveal(Seq::filter);
    if s.len() > 0 {
        assert forall|i: int| 0 <= i < s.drop_last().len() implies !is_white(
            #[trigger] s.drop_last()[i],
        ) by {
            assert(s[i] == s.drop_last()[i]);
        }
        lemma_no_white(s.drop_last());
        assert(!is_white(s[s.len() - 1]));
        assert(compact(s) =~= s);
    }
}

proof fn lemma_hex_bytes_compact(b: Seq<u8>)
    ensures
        compact(hex_bytes(b)).len() == 2 * b.len(),
        forall|i: int|
            0 <= i < b.len() ==> #[trigger] byte_at(compact(hex_bytes(b)), i) == Some(b[i]),
    decreases b.len(),
{
    let all = compact(hex_bytes(b));
    let parts = b.map_values(|x: u8| hex_byte(x));
    let keep = |c: char| !is_white(c);
    if b.len() == 0 {
        assert(hex_bytes(b) =~= Seq::<char>::empty());
        reveal(Seq::filter);
    } else {
        let before = b.drop_last();
        let last = b.last();
        law_hex_byte(last);
        lemma_hex_byte_digits(last);
        lemma_no_white(hex_byte(last));
        lemma_hex_bytes_compact(before);
        let front = compact(hex_bytes(before));
        if b.len() == 1 {
            assert(hex_bytes(b) == parts[0]);
            assert(front.len() == 0);
            assert(all =~= front + hex_byte(last));
        } else {
            assert(parts.drop_last() =~= before.map_values(|x: u8| hex_byte(x)));
            reveal_strlit(" ");
            assert(hex_bytes(b) == hex_bytes(before) + " "@ + hex_byte(last));
            Seq::filter_distributes_over_add(hex_bytes(before) + " "@, hex_byte(last), keep);
            Seq::filter_distributes_over_add(hex_bytes(before), " "@, keep);
            assert(" "@.filter(keep) =~= Seq::<char>::empty()) by {
                reveal_with_fuel(Seq::filter, 3);
                let none = Seq::<char>::empty();
                assert(none.filter(keep) == none);
                assert(" "@.drop_last() =~= none);
                assert(" "@.last() == ' ');
                assert(!keep(' '));
            }
            assert(all =~= front + hex_byte(last));
        }
        assert forall|i: int| 0 <= i < b.len() implies #[trigger] byte_at(all, i) == Some(b[i]) by {
            if i < before.len() {
                assert(all[2 * i] == front[2 * i] && all[2 * i + 1] == front[2 * i + 1]);
                assert(byte_at(front, i) == Some(before[i]));
            } else {
                assert(all[2 * i] == hex_byte(last)[0] && all[2 * i + 1] == hex_byte(last)[1]);
            }
        }
    }
}

proof fn lemma_hex_byte_digits(b: u8)
    ensures
        forall|i: int| 0 <= i < hex_byte(b).len() ==> !is_white(#[trigger] hex_byte(b)[i]),
        hex_pair(hex_byte(b)[0], hex_byte(b)[1]) == Some(b),
{
    law_hex_byte(b);
}

/// Bytes that are written in hexadecimal, with a blank between each two, are read back.
pub proof fn law_hex_bytes_are_read(b: Seq<u8>)
    ensures
        gives(hex_bytes_named(hex_bytes(b)), b),
{
    lemma_hex_bytes_compact(b);
    let c = compact(hex_bytes(b));
    assert(Seq::new(c.len() / 2, |i: int| byte_at(c, i).unwrap()) =~= b);
}

/// An odd number of digits is no bytes.
pub proof fn law_half_a_byte(value: Seq<char>)
    requires
        compact(value).len() % 2 == 1,
    ensures
        hex_bytes_named(value) is Err,
{
}

// ---------------------------------------------------------------------------
// Modules
// ---------------------------------------------------------------------------

proof fn lemma_filter_names()
    ensures
        "allow_all"@.len() == 9 && "allow_all"@[0] == 'a',
        "drop_empty"@.len() == 10,
        "match_source"@.len() == 12 && "match_source"@[6] == 's',
        "match_prefix"@.len() == 12 && "match_prefix"@[6] == 'p',
{
    reveal_strlit("allow_all");
    reveal_strlit("drop_empty");
    reveal_strlit("match_source");
    reveal_strlit("match_prefix");
}

/// A filter lets everything pass unless it says otherwise: `drop_empty`, `match_source` with the
/// inputs, `match_prefix` with the bytes.
pub proof fn law_filter_modules(o: ObjectModel, b: Seq<u8>, ids: Seq<Seq<char>>, name: Seq<char>)
    ensures
        gives(filter_module(None), FilterModel::AllowAll),
        has_text(o, "module"@, "allow_all"@) ==> gives(
            filter_module(Some(JsonModel::Object(o))),
            FilterModel::AllowAll,
        ),
        has_text(o, "module"@, "drop_empty"@) ==> gives(
            filter_module(Some(JsonModel::Object(o))),
            FilterModel::DropEmpty,
        ),
        has_text(o, "module"@, "match_source"@) && gives(string_list_member(o, "input_ids"@), ids)
            ==> gives(
            filter_module(Some(JsonModel::Object(o))),
            FilterModel::MatchSource { input_ids: ids },
        ),
        has_text(o, "module"@, "match_prefix"@) && has_text(o, "prefix_hex"@, hex_bytes(b))
            ==> gives(
            filter_module(Some(JsonModel::Object(o))),
            FilterModel::MatchPrefix { prefix: b },
        ),
        has_text(o, "module"@, name) && name != "allow_all"@ && name != "drop_empty"@ && name
            != "match_source"@ && name != "match_prefix"@ ==> filter_module(
            Some(JsonModel::Object(o)),
        ) is Err,
{
    lemma_filter_names();
    law_hex_bytes_are_read(b);
}

proof fn lemma_transform_names()
    ensures
        "identity"@.len() == 8,
        "ds4_to_compact"@.len() == 14,
        "output_encode"@.len() == 13,
        "packetacv6_encode"@.len() == 17,
        "join_latest"@.len() == 11,
{
    reveal_strlit("identity");
    reveal_strlit("ds4_to_compact");
    reveal_strlit("output_encode");
    reveal_strlit("packetacv6_encode");
    reveal_strlit("join_latest");
}

/// The modules that change what passes: `output_encode` takes a format, `packetacv6_encode` has its
/// own, and `join_latest` waits for all inputs unless it says otherwise.
pub proof fn law_transform_modules(o: ObjectModel, b: Seq<u8>, all: bool, name: Seq<char>, format: OutputFormat)
    ensures
        ({
            let r = transform_module(JsonModel::Object(o));
            &&& has_text(o, "module"@, "identity"@) ==> gives(r, TransformModel::Identity)
            &&& has_text(o, "module"@, "ds4_to_compact"@) ==> gives(r, TransformModel::Ds4ToCompact)
            &&& has_text(o, "module"@, "packetacv6_encode"@) ==> gives(
                r,
                TransformModel::OutputEncode { format: OutputFormat::PacketAcV6 },
            )
            &&& has_text(o, "module"@, "output_encode"@) && has_text(o, "format"@, name)
                && parsed_format(name) == Ok::<OutputFormat, Seq<char>>(format) ==> gives(
                r,
                TransformModel::OutputEncode { format },
            )
            &&& has_text(o, "module"@, "join_latest"@) && has_text(
                o,
                "separator_hex"@,
                hex_bytes(b),
            ) && found(o, "require_all"@) == Some(JsonModel::Bool(all)) ==> gives(
                r,
                TransformModel::JoinLatest { separator: b, require_all: all },
            )
            &&& has_text(o, "module"@, "join_latest"@) && lacks_member(o, "separator_hex"@)
                && lacks_member(o, "require_all"@) ==> gives(
                r,
                TransformModel::JoinLatest { separator: Seq::empty(), require_all: true },
            )
        }),
        transform_chain(None) == Ok::<Seq<TransformModel>, Seq<char>>(Seq::empty()),
{
    lemma_transform_names();
    law_hex_bytes_are_read(b);
    law_hex_bytes_are_read(Seq::empty());
    assert(hex_bytes(Seq::empty()) =~= Seq::<char>::empty());
}

proof fn lemma_classify_names()
    ensures
        "none"@.len() == 4,
        "by_source"@.len() == 9,
        "tag_static"@.len() == 10,
        "match_prefix"@.len() == 12,
{
    reveal_strlit("none");
    reveal_strlit("by_source");
    reveal_strlit("tag_static");
    reveal_strlit("match_prefix");
}

/// What passes is tagged by its input, with given tags, or by its first bytes, and not at all
/// where nothing is said.
pub proof fn law_classify_modules(o: ObjectModel, b: Seq<u8>, tags: Seq<Seq<char>>, tag: Seq<char>)
    ensures
        gives(classify_module(None), ClassifyModel::Unclassified),
        ({
            let r = classify_module(Some(JsonModel::Object(o)));
            &&& has_text(o, "module"@, "none"@) ==> gives(r, ClassifyModel::Unclassified)
            &&& has_text(o, "module"@, "by_source"@) ==> gives(r, ClassifyModel::BySource)
            &&& has_text(o, "module"@, "tag_static"@) && gives(string_list_member(o, "tags"@), tags)
                ==> gives(r, ClassifyModel::TagStatic { tags })
            &&& has_text(o, "module"@, "match_prefix"@) && has_text(
                o,
                "prefix_hex"@,
                hex_bytes(b),
            ) && has_text(o, "tag"@, tag) ==> gives(r, ClassifyModel::MatchPrefix { prefix: b, tag })
        }),
{
    lemma_classify_names();
    law_hex_bytes_are_read(b);
}

proof fn lemma_router_names()
    ensures
        "broadcast"@.len() == 9 && "broadcast"@[0] == 'b',
        "round_robin"@.len() == 11,
        "alternate"@.len() == 9 && "alternate"@[0] == 'a',
        "source_map"@.len() == 10,
        "tag_based"@.len() == 9 && "tag_based"@[0] == 't',
{
    reveal_strlit("broadcast");
    reveal_strlit("round_robin");
    reveal_strlit("alternate");
    reveal_strlit("source_map");
    reveal_strlit("tag_based");
}

/// What passes goes to all outputs, to one after the other, by its input or by its tags; where to
/// must be said.
pub proof fn law_router_modules(
    o: ObjectModel,
    outputs: Seq<Seq<char>>,
    routes: RouteTable,
    name: Seq<char>,
)
    ensures
        router_module(None) is Err,
        ({
            let r = router_module(Some(JsonModel::Object(o)));
            let listed = gives(string_list_member(o, "outputs"@), outputs);
            let mapped = gives(output_map(found(o, "routes"@), "route.routes"@), routes) && gives(
                string_list_member(o, "default_outputs"@),
                outputs,
            );
            &&& has_text(o, "module"@, "broadcast"@) && listed ==> gives(
                r,
                RouterModel::Broadcast { outputs },
            )
            &&& (has_text(o, "module"@, "round_robin"@) || has_text(o, "module"@, "alternate"@))
                && listed ==> gives(r, RouterModel::RoundRobin { outputs })
            &&& has_text(o, "module"@, "source_map"@) && mapped ==> gives(
                r,
                RouterModel::SourceMap { routes, default_outputs: outputs },
            )
            &&& has_text(o, "module"@, "tag_based"@) && mapped ==> gives(
                r,
                RouterModel::TagBased { routes, default_outputs: outputs },
            )
        }),
{
    lemma_router_names();
}

/// A pipeline has a name and inputs, and one module of each kind.
pub proof fn law_pipeline_members(o: ObjectModel, key: Seq<char>, id: Seq<char>)
    requires
        has_text(o, "id"@, id),
    ensures
        pipeline_of(JsonModel::Object(o), key) matches Ok(p) ==> {
            &&& p.id == id
            &&& gives(string_list_member(o, "inputs"@), p.inputs)
            &&& gives(filter_module(found(o, "filter"@)), p.filter)
            &&& gives(transform_chain(found(o, "transform"@)), p.transform)
            &&& gives(classify_module(found(o, "classify"@)), p.classify)
            &&& gives(router_module(found(o, "route"@)), p.router)
        },
        lacks_member(o, "route"@) ==> pipeline_of(JsonModel::Object(o), key) is Err,
{
}

/// One text stands for a list of one, a list of texts for itself, and nothing for none.
pub proof fn law_text_lists(o: ObjectModel, key: Seq<char>, text: Seq<char>, values: Seq<JsonModel>)
    ensures
        has_text(o, key, text) ==> gives(string_list_member(o, key), seq![text]),
        lacks_member(o, key) ==> gives(string_list_member(o, key), Seq::empty()),
        found(o, key) == Some(JsonModel::Array(values)) && string_list_member(o, key) is Ok ==> {
            let list = string_list_member(o, key)->Ok_0;
            list.len() == values.len() && forall|i: int|
                0 <= i < values.len() ==> values[i] == JsonModel::String(#[trigger] list[i])
        },
{
    if found(o, key) == Some(JsonModel::Array(values)) && string_list_member(o, key) is Ok {
        let list = string_list_member(o, key)->Ok_0;
        assert forall|i: int| 0 <= i < values.len() implies values[i] == JsonModel::String(
            #[trigger] list[i],
        ) by {
            assert(values[i] is String);
        }
    }
}

} // verus!
