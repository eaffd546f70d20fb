//! Reading back what was written: the text of a header, read into a blank
//! header, gives the header again.

use crate::header::{
    format_pairs, keys_of, lemma_decision_code_round_trip, put, sets_root, HeaderView, Pair,
    SamplingDecision,
};
use crate::text::{find, join, lemma_find, lemma_find_is, lemma_split_join, split};
use vstd::prelude::*;

verus! {

/// Whether a pair of additional data comes back from a header text as it went
/// in: neither text holds a semicolon, and the key holds no equals sign and is
/// none of the names that a header text keeps for itself.
pub open spec fn plain_pair(pair: Pair) -> bool {
    &&& !pair.0.contains(';')
    &&& !pair.0.contains('=')
    &&& !pair.1.contains(';')
    &&& pair.0 != "Root"@
    &&& pair.0 != "Parent"@
    &&& pair.0 != "Sampled"@
    &&& pair.0 != "Self"@
}

/// Whether a header comes back from its text as it went in: its ids hold no
/// semicolon, its keys are distinct, and its pairs are plain.
pub open spec fn plain(header: HeaderView) -> bool {
    &&& !header.trace_id.contains(';')
    &&& header.parent_id matches Some(parent) ==> !parent.contains(';')
    &&& header.well_formed()
    &&& forall|i: int|
        0 <= i < header.additional_data.len() ==> plain_pair(#[trigger] header.additional_data[i])
}

/// The field of a header text that carries a pair.
pub open spec fn field_of(pair: Pair) -> Seq<char> {
    pair.0.push('=') + pair.1
}

/// The fields of a header text that come before the additional data.
pub open spec fn head_fields(header: HeaderView) -> Seq<Seq<char>> {
    let root = seq!["Root="@ + header.trace_id];
    let parent = match header.parent_id {
        Some(parent) => root.push("Parent="@ + parent),
        None => root,
    };
    if header.sampling_decision == SamplingDecision::Unknown {
        parent
    } else {
        parent.push(header.sampling_decision.code())
    }
}

/// The fields of the text of a header.
pub open spec fn fields_of(header: HeaderView) -> Seq<Seq<char>> {
    head_fields(header) + header.additional_data.map_values(|pair: Pair| field_of(pair))
}

/// Fields joined by semicolons, and then pairs written behind them, are the
/// fields and the fields of the pairs joined by semicolons.
proof fn lemma_join_pairs(fields: Seq<Seq<char>>, pairs: Seq<Pair>)
    requires
        fields.len() > 0,
    ensures
        join(fields + pairs.map_values(|pair: Pair| field_of(pair)), ';') == join(fields, ';')
            + format_pairs(pairs),
    decreases pairs.len(),
{
    let all = fields + pairs.map_values(|pair: Pair| field_of(pair));
    if pairs.len() == 0 {
        assert(all =~= fields);
        assert(join(fields, ';') + format_pairs(pairs) =~= join(fields, ';'));
    } else {
        let front = pairs.drop_last();
        lemma_join_pairs(fields, front);
        assert(all.drop_last() =~= fields + front.map_values(|pair: Pair| field_of(pair)));
        assert(all.last() == field_of(pairs.last()));
        assert(join(all, ';') =~= join(fields, ';') + format_pairs(pairs));
    }
}

/// The text of a header is its fields joined by semicolons.
pub proof fn lemma_format_is_join(header: HeaderView)
    ensures
        header.format() == join(fields_of(header), ';'),
{
    reveal_strlit(";Parent=");
    reveal_strlit("Parent=");
    reveal_with_fuel(join, 3);
    let root = seq!["Root="@ + header.trace_id];
    let parent = match header.parent_id {
        Some(parent) => root.push("Parent="@ + parent),
        None => root,
    };
    assert(join(root, ';') == "Root="@ + header.trace_id);
    assert(join(parent, ';') =~= "Root="@ + header.trace_id + (match header.parent_id {
        Some(parent) => ";Parent="@ + parent,
        None => Seq::empty(),
    })) by {
        if header.parent_id is Some {
            assert(parent.drop_last() =~= root);
            assert(";Parent="@ =~= seq![';'] + "Parent="@);
        }
    }
    let head = head_fields(header);
    assert(join(head, ';') =~= join(parent, ';') + (if header.sampling_decision
        == SamplingDecision::Unknown {
        Seq::empty()
    } else {
        seq![';'] + header.sampling_decision.code()
    })) by {
        if header.sampling_decision != SamplingDecision::Unknown {
            assert(head.drop_last() =~= parent);
        }
    }
    lemma_join_pairs(head, header.additional_data);
}

/// Reading one more field after some fields is reading that field into what
/// the others gave.
pub proof fn lemma_apply_one_more(header: HeaderView, fields: Seq<Seq<char>>, field: Seq<char>)
    ensures
        header.apply_fields(fields.push(field)) == match header.apply_fields(fields) {
            Ok(next) => next.apply_field(field),
            Err(bad) => Err(bad),
        },
    decreases fields.len(),
{
    reveal_with_fuel(HeaderView::apply_fields, 2);
    let all = fields.push(field);
    if fields.len() == 0 {
        assert(all.skip(1) =~= Seq::empty());
    } else {
        assert(all.skip(1) =~= fields.skip(1).push(field));
        match header.apply_field(fields[0]) {
            Ok(next) => {
                lemma_apply_one_more(next, fields.skip(1), field);
            },
            Err(_) => {},
        }
    }
}

/// The field of a plain pair is read as that pair.
proof fn lemma_apply_plain_pair(header: HeaderView, pair: Pair)
    requires
        plain_pair(pair),
    ensures
        header.apply_field(field_of(pair)) == Ok::<HeaderView, Seq<char>>(
            HeaderView { additional_data: put(header.additional_data, pair.0, pair.1), ..header },
        ),
{
    reveal_strlit("Root=");
    reveal_strlit("Parent=");
    reveal_strlit("Sampled=");
    reveal_strlit("Self=");
    reveal_strlit("Root");
    reveal_strlit("Parent");
    reveal_strlit("Sampled");
    reveal_strlit("Self");
    let key = pair.0;
    let field = field_of(pair);
    assert forall|j: int| 0 <= j < key.len() implies field[j] != '=' by {
        assert(field[j] == key[j]);
    }
    lemma_find_is(field, '=', key.len() as int);
    assert(field[key.len() as int] == '=');
    assert(field.take(key.len() as int) =~= key);
    assert(field.skip(key.len() as int + 1) =~= pair.1);
    if "Root="@.is_prefix_of(field) {
        assert(field[4] == "Root="@[4]);
        assert forall|j: int| 0 <= j < 4 implies field[j] != '=' by {
            assert(field[j] == "Root="@[j]);
        }
        assert(key.len() == 4) by {
            if key.len() > 4 {
                assert(field[4] == key[4]);
            }
        }
        assert(key =~= "Root"@) by {
            assert forall|j: int| 0 <= j < 4 implies key[j] == "Root"@[j] by {
                assert(field[j] == "Root="@[j]);
            }
        }
    }
    if "Parent="@.is_prefix_of(field) {
        assert(field[6] == "Parent="@[6]);
        assert forall|j: int| 0 <= j < 6 implies field[j] != '=' by {
            assert(field[j] == "Parent="@[j]);
        }
        assert(key.len() == 6) by {
            if key.len() > 6 {
                assert(field[6] == key[6]);
            }
        }
        assert(key =~= "Parent"@) by {
            assert forall|j: int| 0 <= j < 6 implies key[j] == "Parent"@[j] by {
                assert(field[j] == "Parent="@[j]);
            }
        }
    }
    if "Sampled="@.is_prefix_of(field) {
        assert(field[7] == "Sampled="@[7]);
        assert forall|j: int| 0 <= j < 7 implies field[j] != '=' by {
            assert(field[j] == "Sampled="@[j]);
        }
        assert(key.len() == 7) by {
            if key.len() > 7 {
                assert(field[7] == key[7]);
            }
        }
        assert(key =~= "Sampled"@) by {
            assert forall|j: int| 0 <= j < 7 implies key[j] == "Sampled"@[j] by {
                assert(field[j] == "Sampled="@[j]);
            }
        }
    }
    if "Self="@.is_prefix_of(field) {
        assert(field[4] == "Self="@[4]);
        assert forall|j: int| 0 <= j < 4 implies field[j] != '=' by {
            assert(field[j] == "Self="@[j]);
        }
        assert(key.len() == 4) by {
            if key.len() > 4 {
                assert(field[4] == key[4]);
            }
        }
        assert(key =~= "Self"@) by {
            assert forall|j: int| 0 <= j < 4 implies key[j] == "Self"@[j] by {
                assert(field[j] == "Self="@[j]);
            }
        }
    }
}

/// The fields before the additional data are read as the ids and the decision
/// of the header.
proof fn lemma_apply_head(header: HeaderView, start: Seq<char>)
    ensures
        HeaderView::blank(start).apply_fields(head_fields(header)) == Ok::<HeaderView, Seq<char>>(
            HeaderView { additional_data: Seq::empty(), ..header },
        ),
{
    reveal_strlit("Root=");
    reveal_strlit("Parent=");
    reveal_strlit("Sampled=");
    reveal_strlit("Sampled=1");
    reveal_strlit("Sampled=0");
    reveal_strlit("Sampled=?");
    reveal_with_fuel(HeaderView::apply_fields, 2);
    let blank = HeaderView::blank(start);
    let root_field = "Root="@ + header.trace_id;
    let root = seq![root_field];
    assert(root.skip(1) =~= Seq::empty());
    assert(root_field.skip(5) =~= header.trace_id);
    assert("Root="@.is_prefix_of(root_field)) by {
        assert(root_field.subrange(0, 5) =~= "Root="@);
    }
    let after_root = HeaderView { trace_id: header.trace_id, ..blank };
    assert(blank.apply_fields(root) == Ok::<HeaderView, Seq<char>>(after_root));
    let parent = match header.parent_id {
        Some(parent) => root.push("Parent="@ + parent),
        None => root,
    };
    let after_parent = HeaderView { parent_id: header.parent_id, ..after_root };
    assert(blank.apply_fields(parent) == Ok::<HeaderView, Seq<char>>(after_parent)) by {
        if let Some(id) = header.parent_id {
            let field = "Parent="@ + id;
            lemma_apply_one_more(blank, root, field);
            assert(field.subrange(0, 7) =~= "Parent="@);
            assert(field[0] != "Root="@[0]);
            assert(field.skip(7) =~= id);
        }
    }
    if header.sampling_decision != SamplingDecision::Unknown {
        let field = header.sampling_decision.code();
        lemma_apply_one_more(blank, parent, field);
        lemma_decision_code_round_trip(header.sampling_decision);
        assert(field.subrange(0, 8) =~= "Sampled="@);
        assert(field[0] != "Root="@[0]);
        assert(field[0] != "Parent="@[0]);
    }
}

/// The fields of a plain header, up to the first `count` pairs of its
/// additional data, are read as the header with those pairs.
proof fn lemma_apply_upto(header: HeaderView, start: Seq<char>, count: int)
    requires
        plain(header),
        0 <= count <= header.additional_data.len(),
    ensures
        HeaderView::blank(start).apply_fields(
            head_fields(header) + header.additional_data.take(count).map_values(
                |pair: Pair| field_of(pair),
            ),
        ) == Ok::<HeaderView, Seq<char>>(
            HeaderView { additional_data: header.additional_data.take(count), ..header },
        ),
    decreases count,
{
    let pairs = header.additional_data;
    let fields = head_fields(header) + pairs.take(count).map_values(|pair: Pair| field_of(pair));
    if count == 0 {
        lemma_apply_head(header, start);
        assert(fields =~= head_fields(header));
        assert(pairs.take(0) =~= Seq::empty());
    } else {
        let before = head_fields(header) + pairs.take(count - 1).map_values(
            |pair: Pair| field_of(pair),
        );
        let pair = pairs[count - 1];
        lemma_apply_upto(header, start, count - 1);
        assert(fields =~= before.push(field_of(pair)));
        lemma_apply_one_more(HeaderView::blank(start), before, field_of(pair));
        let so_far = HeaderView { additional_data: pairs.take(count - 1), ..header };
        lemma_apply_plain_pair(so_far, pair);
        let keys = keys_of(pairs.take(count - 1));
        assert forall|j: int| 0 <= j < keys.len() implies keys[j] != pair.0 by {
            assert(keys_of(pairs)[j] == keys[j]);
            assert(keys_of(pairs)[count - 1] == pair.0);
        }
        lemma_find_is(keys, pair.0, count - 1);
        assert(put(pairs.take(count - 1), pair.0, pair.1) =~= pairs.take(count));
    }
}

/// Header round trip: the text of a plain header names its trace id, and read
/// into a blank header it gives the header again, whatever trace id the blank
/// header started with.
pub proof fn lemma_format_then_parse(header: HeaderView, start: Seq<char>)
    requires
        plain(header),
    ensures
        sets_root(split(header.format(), ';')),
        HeaderView::blank(start).parse(header.format()) == Ok::<HeaderView, Seq<char>>(header),
{
    reveal_strlit("Root=");
    reveal_strlit("Parent=");
    reveal_strlit("Sampled=1");
    reveal_strlit("Sampled=0");
    reveal_strlit("Sampled=?");
    let fields = fields_of(header);
    lemma_format_is_join(header);
    assert forall|i: int| 0 <= i < fields.len() implies !(#[trigger] fields[i]).contains(';') by {
        let field = fields[i];
        if field.contains(';') {
            let at = choose|at: int| 0 <= at < field.len() && field[at] == ';';
            let head = head_fields(header);
            if i >= head.len() {
                let pair = header.additional_data[i - head.len()];
                assert(plain_pair(pair));
                if at < pair.0.len() {
                    assert(pair.0[at] == ';');
                } else if at > pair.0.len() {
                    assert(pair.1[at - pair.0.len() - 1] == ';');
                }
            } else if i == 0 {
                assert(header.trace_id[at - 5] == ';');
            } else if i == 1 && header.parent_id is Some {
                assert(header.parent_id->0[at - 7] == ';');
            }
        }
    }
    lemma_split_join(fields, ';');
    assert("Root="@.is_prefix_of(fields[0])) by {
        assert(fields[0].subrange(0, 5) =~= "Root="@);
    }
    lemma_apply_upto(header, start, header.additional_data.len() as int);
    assert(header.additional_data.take(header.additional_data.len() as int)
        =~= header.additional_data);
}

} // verus!
