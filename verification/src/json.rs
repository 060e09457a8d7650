//! The JSON edge of the service. Decoding a request body and rendering
//! one row are delegated to serde_json behind trusted wrappers; the
//! list rendering around them is verified.
use vstd::prelude::*;
use crate::store::RowModel;
use crate::store::UserRow;

verus! {

/// The name and email a JSON user payload carries: present exactly when
/// the text is a well-formed JSON document whose `name` and `email`
/// fields are strings.
pub uninterp spec fn payload_fields(s: Seq<char>) -> Option<(Seq<char>, Seq<char>)>;

/// Relies on serde_json: `from_str::<Value>` decodes the text under
/// standard JSON semantics and `Value::get` looks the two fields up in
/// it. The outcome is a function of the body text alone; an empty body
/// is not a JSON document, so it is always rejected.
#[verifier::external_body]
pub fn decode_user_payload(body: &str) -> (r: Option<(String, String)>)
    ensures
        r is Some <==> payload_fields(body@) is Some,
        r matches Some(p) ==> payload_fields(body@) == Some((p.0@, p.1@)),
        body@.len() == 0 ==> r is None,
{
    let v: serde_json::Value = match serde_json::from_str(body) {
        Ok(v) => v,
        Err(_) => return None,
    };
    match (v.get("name"), v.get("email")) {
        (Some(serde_json::Value::String(n)), Some(serde_json::Value::String(e))) => Some(
            (n.clone(), e.clone()),
        ),
        _ => None,
    }
}

/// The JSON text serde renders for one user row with fields `id`,
/// `name`, `email`, in that order: a function of the three values.
pub uninterp spec fn json_user(id: int, name: Seq<char>, email: Seq<char>) -> Seq<char>;

/// Relies on serde_json: `Map::insert` keeps insertion order here and
/// `to_string` renders the object compactly, as a function of the three
/// values alone; rendering a `Value` built of strings and a number
/// cannot fail.
#[verifier::external_body]
pub fn encode_user(id: i32, name: &str, email: &str) -> (r: String)
    ensures
        r@ == json_user(id as int, name@, email@),
{
    let mut m = serde_json::Map::new();
    m.insert("id".to_string(), serde_json::Value::from(id));
    m.insert("name".to_string(), serde_json::Value::from(name));
    m.insert("email".to_string(), serde_json::Value::from(email));
    serde_json::to_string(&serde_json::Value::Object(m)).unwrap()
}

/// The row renderings, comma-separated.
pub open spec fn json_items(rows: Seq<RowModel>) -> Seq<char>
    decreases rows.len(),
{
    if rows.len() == 0 {
        Seq::empty()
    } else if rows.len() == 1 {
        json_user(rows[0].id, rows[0].name, rows[0].email)
    } else {
        json_items(rows.drop_last()) + ","@ + json_user(
            rows.last().id,
            rows.last().name,
            rows.last().email,
        )
    }
}

/// The JSON array rendering of a sequence of rows.
pub open spec fn json_user_list(rows: Seq<RowModel>) -> Seq<char> {
    "["@ + json_items(rows) + "]"@
}

/// Renders rows as a JSON array: entries in row order, comma-separated,
/// in brackets, exactly as serde renders the corresponding vector.
pub fn encode_user_list(rows: &Vec<UserRow>) -> (r: String)
    ensures
        r@ == json_user_list(rows@.map_values(|u: UserRow| u@)),
{
    let ghost rseq = rows@.map_values(|u: UserRow| u@);
    let mut out = String::from_str("[");
    let mut i: usize = 0;
    while i < rows.len()
        invariant
            i <= rows.len(),
            rseq == rows@.map_values(|u: UserRow| u@),
            rseq.len() == rows.len(),
            out@ == "["@ + json_items(rseq.subrange(0, i as int)),
        decreases rows.len() - i,
    {
        let ghost pre = out@;
        if i > 0 {
            out.append(",");
        }
        let u = &rows[i];
        let part = encode_user(u.id, u.name.as_str(), u.email.as_str());
        out.append(part.as_str());
        proof {
            let sub1 = rseq.subrange(0, i as int + 1);
            assert(sub1.drop_last() =~= rseq.subrange(0, i as int));
            assert(sub1.last() == rseq[i as int]);
            assert(part@ == json_user(rseq[i as int].id, rseq[i as int].name, rseq[i as int].email));
            if i == 0 {
                assert(json_items(rseq.subrange(0, 0)) =~= Seq::<char>::empty());
                assert(out@ =~= "["@ + json_items(sub1));
            } else {
                assert(json_items(sub1) == json_items(rseq.subrange(0, i as int)) + ","@ + part@);
                assert(out@ =~= "["@ + json_items(sub1));
            }
        }
        i += 1;
    }
    out.append("]");
    proof {
        assert(rseq.subrange(0, rseq.len() as int) =~= rseq);
    }
    out
}

} // verus!
