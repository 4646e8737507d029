//! The synthetic JSON document that the parsing workloads read: an object
//! whose `data` array holds as many small records as fit in a size budget.
//! All of its text is ASCII, so its length in characters is its length in
//! bytes.

use vstd::prelude::*;
use vstd::string::{StrSliceExecFns, StringExecFns};

verus! {

/// The decimal digit `d` (for `d < 10`) as text.
pub open spec fn digit_text(d: nat) -> Seq<char> {
    seq![('0' as u8 + d) as char]
}

/// `n` written in decimal, without sign or leading zeros.
pub open spec fn decimal(n: nat) -> Seq<char>
    decreases n,
{
    if n < 10 {
        digit_text(n)
    } else {
        decimal(n / 10) + digit_text(n % 10)
    }
}

/// Record number `k` of the `data` array, with its trailing comma.
pub open spec fn json_record(k: nat) -> Seq<char> {
    "{\"id\":"@ + decimal(k) + ",\"name\":\"obj"@ + decimal(k) + "\",\"nested\":{\"value\":"@
        + decimal(k % 1000) + ",\"array\":[1,2,3,4,5]}},"@
}

/// Records `0..m`, one after the other.
pub open spec fn json_records(m: nat) -> Seq<char>
    decreases m,
{
    if m == 0 {
        Seq::empty()
    } else {
        json_records((m - 1) as nat) + json_record((m - 1) as nat)
    }
}

/// The text that opens the document.
pub open spec fn json_head() -> Seq<char> {
    "{\"data\":["@
}

/// The document with `m` records: the comma after the last record dropped,
/// then the array and the object closed.
pub open spec fn json_document(m: nat) -> Seq<char> {
    if m == 0 {
        json_head() + "]}"@
    } else {
        json_head() + json_records(m).drop_last() + "]}"@
    }
}

/// `m` records fit in `target` characters together with the opening text.
pub open spec fn records_fit(target: nat, m: nat) -> bool {
    json_head().len() + json_records(m).len() <= target
}

/// The text of a decimal digit.
fn digit_str(d: usize) -> (r: &'static str)
    requires
        d < 10,
    ensures
        r@ == digit_text(d as nat),
{
    proof {
        reveal_strlit("0");
        reveal_strlit("1");
        reveal_strlit("2");
        reveal_strlit("3");
        reveal_strlit("4");
        reveal_strlit("5");
        reveal_strlit("6");
        reveal_strlit("7");
        reveal_strlit("8");
        reveal_strlit("9");
    }
    let r = if d == 0 {
        "0"
    } else if d == 1 {
        "1"
    } else if d == 2 {
        "2"
    } else if d == 3 {
        "3"
    } else if d == 4 {
        "4"
    } else if d == 5 {
        "5"
    } else if d == 6 {
        "6"
    } else if d == 7 {
        "7"
    } else if d == 8 {
        "8"
    } else {
        "9"
    };
    assert(r@ =~= digit_text(d as nat));
    r
}

/// Appends `n` in decimal.
pub fn append_decimal(out: &mut String, n: usize)
    ensures
        final(out)@ == old(out)@ + decimal(n as nat),
    decreases n,
{
    if n < 10 {
        out.append(digit_str(n));
    } else {
        append_decimal(out, n / 10);
        out.append(digit_str(n % 10));
        assert(final(out)@ =~= old(out)@ + decimal(n as nat));
    }
}

/// Record number `k`, with its trailing comma.
pub fn json_record_text(k: usize) -> (r: String)
    ensures
        r@ == json_record(k as nat),
{
    let mut s = String::from_str("{\"id\":");
    append_decimal(&mut s, k);
    s.append(",\"name\":\"obj");
    append_decimal(&mut s, k);
    s.append("\",\"nested\":{\"value\":");
    append_decimal(&mut s, k % 1000);
    s.append(",\"array\":[1,2,3,4,5]}},");
    s
}

/// Every record is at least one character long.
proof fn lemma_record_nonempty(k: nat)
    ensures
        json_record(k).len() > 0,
{
    reveal_strlit(",\"array\":[1,2,3,4,5]}},");
}

/// The last character of every record is a comma.
proof fn lemma_record_ends_with_comma(k: nat)
    ensures
        json_record(k).len() > 0,
        json_record(k).last() == ',',
{
    reveal_strlit(",\"array\":[1,2,3,4,5]}},");
}

/// A document of records of the synthetic kind that fits `size_target`
/// characters: records are added while the next one still fits, so the
/// number of records is the largest that fits (none where not even the
/// opening text fits). Shorter targets still give the empty document.
pub fn generate_complex_json(size_target: usize) -> (r: String)
    ensures
        exists|m: nat|
            {
                &&& r@ == json_document(m)
                &&& m == 0 || records_fit(size_target as nat, m)
                &&& !records_fit(size_target as nat, m + 1)
            },
{
    proof {
        reveal_strlit("{\"data\":[");
    }
    let mut result = String::from_str("{\"data\":[");
    let mut current_size: usize = 9;
    let mut counter: usize = 0;
    while current_size < size_target
        invariant_except_break
            current_size < size_target || !records_fit(size_target as nat, counter as nat + 1),
        invariant
            result@ == json_head() + json_records(counter as nat),
            current_size == result@.len(),
            counter == 0 || current_size <= size_target,
            counter <= current_size,
        ensures
            result@ == json_head() + json_records(counter as nat),
            current_size == result@.len(),
            counter == 0 || current_size <= size_target,
            !records_fit(size_target as nat, counter as nat + 1),
        decreases size_target - current_size,
    {
        let record = json_record_text(counter);
        let record_len = record.as_str().unicode_len();
        proof {
            lemma_record_nonempty(counter as nat);
        }
        if record_len > size_target - current_size {
            break;
        }
        result.append(record.as_str());
        assert(result@ =~= json_head() + json_records(counter as nat + 1));
        current_size = current_size + record_len;
        counter = counter + 1;
    }
    proof {
        if counter > 0 {
            lemma_record_ends_with_comma((counter - 1) as nat);
        }
    }
    let ghost m = counter as nat;
    let mut closed = String::new();
    if counter > 0 {
        let body = result.as_str().substring_char(0, current_size - 1);
        closed.append(body);
        assert(closed@ =~= json_head() + json_records(m).drop_last());
    } else {
        closed.append(result.as_str());
    }
    closed.append("]}");
    assert(closed@ =~= json_document(m));
    closed
}

} // verus!
