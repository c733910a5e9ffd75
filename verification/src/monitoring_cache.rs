use vstd::prelude::*;
use vstd::string::StringExecFns;
use crate::text::str_equal;

verus! {

/// The texts of a list of keys.
pub open spec fn key_texts(keys: Seq<String>) -> Seq<Seq<char>> {
    keys.map_values(|k: String| k@)
}

/// The keys copied from a cached latest record for the requested fields:
/// `uuid` and `timestamp`, then each requested field that the record holds,
/// in request order, each once.
pub open spec fn selected_fields(record: Seq<Seq<char>>, fields: Seq<Seq<char>>) -> Seq<Seq<char>>
    decreases fields.len(),
{
    if fields.len() == 0 {
        seq!["uuid"@, "timestamp"@]
    } else {
        let prev = selected_fields(record, fields.drop_last());
        let f = fields.last();
        if record.contains(f) && !prev.contains(f) {
            prev.push(f)
        } else {
            prev
        }
    }
}

/// What a read of the latest cached record returns, as the keys to copy
/// from it: the whole record when no field is requested (an empty field
/// list means every column); otherwise the selected fields, or nothing when
/// the record lacks `uuid` or `timestamp`.
pub open spec fn last_record_selection(record: Seq<Seq<char>>, fields: Seq<Seq<char>>) -> Option<Seq<Seq<char>>> {
    if fields.len() == 0 {
        Some(record)
    } else if record.contains("uuid"@) && record.contains("timestamp"@) {
        Some(selected_fields(record, fields))
    } else {
        None
    }
}

fn contains_text(keys: &Vec<String>, text: &str) -> (r: bool)
    ensures
        r == key_texts(keys@).contains(text@),
{
    let mut i: usize = 0;
    while i < keys.len()
        invariant
            i <= keys@.len(),
            forall|j: int| 0 <= j < i ==> keys@[j]@ != text@,
        decreases keys@.len() - i,
    {
        if str_equal(keys[i].as_str(), text) {
            assert(key_texts(keys@)[i as int] == text@);
            return true;
        }
        i = i + 1;
    }
    proof {
        if key_texts(keys@).contains(text@) {
            let j = choose|j: int| 0 <= j < key_texts(keys@).len() && key_texts(keys@)[j] == text@;
            assert(keys@[j]@ == text@);
        }
    }
    false
}

fn copy_keys(keys: &Vec<String>) -> (r: Vec<String>)
    ensures
        key_texts(r@) == key_texts(keys@),
{
    let mut out: Vec<String> = Vec::new();
    let mut i: usize = 0;
    while i < keys.len()
        invariant
            i <= keys@.len(),
            key_texts(out@) == key_texts(keys@.subrange(0, i as int)),
        decreases keys@.len() - i,
    {
        out.push(String::from_str(keys[i].as_str()));
        proof {
            assert(key_texts(keys@.subrange(0, i + 1)) =~= key_texts(keys@.subrange(0, i as int)).push(
                keys@[i as int]@,
            ));
        }
        i = i + 1;
    }
    assert(keys@.subrange(0, keys@.len() as int) =~= keys@);
    out
}

/// The keys to copy from the latest cached record of an agent, whose keys
/// are `record_keys`, for a static, dynamic or summary read that requests
/// `fields` (see `last_record_selection`).
pub fn last_record_keys(record_keys: &Vec<String>, fields: &Vec<String>) -> (r: Option<Vec<String>>)
    ensures
        match last_record_selection(key_texts(record_keys@), key_texts(fields@)) {
            Some(s) => r matches Some(v) && key_texts(v@) == s,
            None => r is None,
        },
{
    if fields.len() == 0 {
        return Some(copy_keys(record_keys));
    }
    if !contains_text(record_keys, "uuid") || !contains_text(record_keys, "timestamp") {
        return None;
    }
    let mut out: Vec<String> = Vec::new();
    out.push(String::from_str("uuid"));
    out.push(String::from_str("timestamp"));
    proof {
        assert(key_texts(out@) =~= seq!["uuid"@, "timestamp"@]);
        assert(fields@.subrange(0, 0) =~= Seq::<String>::empty());
        assert(key_texts(fields@.subrange(0, 0)) =~= Seq::<Seq<char>>::empty());
    }
    let mut i: usize = 0;
    while i < fields.len()
        invariant
            i <= fields@.len(),
            key_texts(out@) == selected_fields(key_texts(record_keys@), key_texts(fields@.subrange(0, i as int))),
        decreases fields@.len() - i,
    {
        let f = fields[i].as_str();
        proof {
            assert(key_texts(fields@.subrange(0, i + 1)).drop_last() =~= key_texts(fields@.subrange(0, i as int)));
            assert(key_texts(fields@.subrange(0, i + 1)).last() == f@);
        }
        if contains_text(record_keys, f) && !contains_text(&out, f) {
            out.push(String::from_str(f));
            proof {
                assert(key_texts(out@) =~= key_texts(out@.drop_last()).push(f@));
            }
        }
        i = i + 1;
    }
    assert(fields@.subrange(0, fields@.len() as int) =~= fields@);
    Some(out)
}

/// A filtered read copies `uuid` and `timestamp` first, then only fields
/// that were requested and that the record holds, and no key twice.
pub proof fn lemma_selected_fields_shape(record: Seq<Seq<char>>, fields: Seq<Seq<char>>)
    ensures
        selected_fields(record, fields).len() >= 2,
        selected_fields(record, fields)[0] == "uuid"@,
        selected_fields(record, fields)[1] == "timestamp"@,
        forall|i: int|
            2 <= i < selected_fields(record, fields).len() ==> record.contains(
                #[trigger] selected_fields(record, fields)[i],
            ) && fields.contains(selected_fields(record, fields)[i]),
        forall|f: Seq<char>| #[trigger]
            fields.contains(f) && record.contains(f) ==> selected_fields(record, fields).contains(f),
    decreases fields.len(),
{
    if fields.len() > 0 {
        let prev_fields = fields.drop_last();
        lemma_selected_fields_shape(record, prev_fields);
        let prev = selected_fields(record, prev_fields);
        let s = selected_fields(record, fields);
        assert forall|i: int| 2 <= i < s.len() implies record.contains(#[trigger] s[i]) && fields.contains(s[i]) by {
            if i < prev.len() {
                assert(s[i] == prev[i]);
                assert(prev_fields.contains(prev[i]));
                let k = choose|k: int| 0 <= k < prev_fields.len() && prev_fields[k] == prev[i];
                assert(fields[k] == prev[i]);
            } else {
                assert(s[i] == fields.last());
                assert(fields[fields.len() - 1] == s[i]);
            }
        }
        assert forall|f: Seq<char>| #[trigger] fields.contains(f) && record.contains(f) implies s.contains(f) by {
            let k = choose|k: int| 0 <= k < fields.len() && fields[k] == f;
            if k < fields.len() - 1 {
                assert(prev_fields[k] == f);
                assert(prev_fields.contains(f));
                assert(prev.contains(f));
                let j = choose|j: int| 0 <= j < prev.len() && prev[j] == f;
                assert(s[j] == f);
            } else if !prev.contains(f) {
                assert(s[s.len() - 1] == f);
            } else {
                let j = choose|j: int| 0 <= j < prev.len() && prev[j] == f;
                assert(s[j] == f);
            }
        }
    }
}

} // verus!
