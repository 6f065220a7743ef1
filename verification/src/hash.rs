use vstd::prelude::*;

use crate::chat::{Chat, ChatV};
use crate::num::{
    dec_str, int_dec_str, is_digit_char, lemma_dec_str_chars, lemma_dec_str_injective,
    lemma_int_dec_str_injective,
};
use crate::text::{push_dec, push_int_dec};

verus! {

/// A string framed by its length: no two frames, followed by anything, can
/// be read two ways.
pub open spec fn enc_str(s: Seq<char>) -> Seq<char> {
    dec_str(s.len()) + seq![':'] + s
}

/// An optional string: one mark for absence, another before a frame.
pub open spec fn enc_opt(o: Option<Seq<char>>) -> Seq<char> {
    match o {
        None => seq!['-'],
        Some(s) => seq!['+'] + enc_str(s),
    }
}

/// The frames of a list's items, in order.
pub open spec fn enc_cat(v: Seq<Seq<char>>) -> Seq<char>
    decreases v.len(),
{
    if v.len() == 0 {
        Seq::<char>::empty()
    } else {
        enc_str(v[0]) + enc_cat(v.skip(1))
    }
}

/// A list framed by its item count.
pub open spec fn enc_list(v: Seq<Seq<char>>) -> Seq<char> {
    dec_str(v.len()) + seq!['#'] + enc_cat(v)
}

pub open spec fn opt_int_text(o: Option<int>) -> Option<Seq<char>> {
    match o {
        None => None,
        Some(t) => Some(int_dec_str(t)),
    }
}

/// The hash input of a block definition: the block kind, then every field,
/// each optional field's presence or absence included, the stop list in
/// order.
pub open spec fn hash_input(v: ChatV) -> Seq<char> {
    seq!['c', 'h', 'a', 't'] + enc_opt(v.instructions) + enc_str(v.messages_code) + enc_opt(
        v.functions_code,
    ) + enc_str(v.temperature) + enc_opt(v.top_p) + enc_list(v.stop) + enc_opt(
        opt_int_text(v.max_tokens),
    ) + enc_opt(v.presence_penalty) + enc_opt(v.frequency_penalty)
}

/// Reading a count off the front of two equal streams: the counts agree and
/// so do the remainders.
proof fn lemma_count_prefix(n1: nat, n2: nat, sep: char, r1: Seq<char>, r2: Seq<char>)
    requires
        !is_digit_char(sep),
        dec_str(n1) + seq![sep] + r1 == dec_str(n2) + seq![sep] + r2,
    ensures
        n1 == n2,
        r1 == r2,
{
    let d1 = dec_str(n1);
    let d2 = dec_str(n2);
    lemma_dec_str_chars(n1);
    lemma_dec_str_chars(n2);
    let s1 = d1 + seq![sep] + r1;
    let s2 = d2 + seq![sep] + r2;
    assert(d1.len() == d2.len()) by {
        if d1.len() < d2.len() {
            assert(s1[d1.len() as int] == sep);
            assert(s2[d1.len() as int] == d2[d1.len() as int]);
            assert(is_digit_char(d2[d1.len() as int]));
        }
        if d2.len() < d1.len() {
            assert(s2[d2.len() as int] == sep);
            assert(s1[d2.len() as int] == d1[d2.len() as int]);
            assert(is_digit_char(d1[d2.len() as int]));
        }
    }
    assert(d1 =~= d2) by {
        assert forall|i: int| 0 <= i < d1.len() implies d1[i] == d2[i] by {
            assert(s1[i] == d1[i]);
            assert(s2[i] == d2[i]);
        }
    }
    lemma_dec_str_injective(n1, n2);
    assert(r1 =~= r2) by {
        assert(s1.len() == s2.len());
        assert(r1.len() == r2.len());
        assert forall|i: int| 0 <= i < r1.len() implies r1[i] == r2[i] by {
            assert(s1[d1.len() + 1 + i] == r1[i]);
            assert(s2[d2.len() + 1 + i] == r2[i]);
        }
    }
}

/// Reading a frame off the front of two equal streams.
proof fn lemma_enc_str_prefix(a: Seq<char>, b: Seq<char>, x: Seq<char>, y: Seq<char>)
    requires
        enc_str(a) + x == enc_str(b) + y,
    ensures
        a == b,
        x == y,
{
    assert(enc_str(a) + x =~= dec_str(a.len()) + seq![':'] + (a + x));
    assert(enc_str(b) + y =~= dec_str(b.len()) + seq![':'] + (b + y));
    assert(!is_digit_char(':')) by {
        assert(':' as u32 == 58);
    }
    lemma_count_prefix(a.len(), b.len(), ':', a + x, b + y);
    assert(a =~= b) by {
        assert forall|i: int| 0 <= i < a.len() implies a[i] == b[i] by {
            assert((a + x)[i] == a[i]);
            assert((b + y)[i] == b[i]);
        }
    }
    assert(x =~= y) by {
        assert(x.len() == y.len());
        assert forall|i: int| 0 <= i < x.len() implies x[i] == y[i] by {
            assert((a + x)[a.len() + i] == x[i]);
            assert((b + y)[b.len() + i] == y[i]);
        }
    }
}

/// Reading an optional frame off the front of two equal streams.
proof fn lemma_enc_opt_prefix(
    o1: Option<Seq<char>>,
    o2: Option<Seq<char>>,
    x: Seq<char>,
    y: Seq<char>,
)
    requires
        enc_opt(o1) + x == enc_opt(o2) + y,
    ensures
        o1 == o2,
        x == y,
{
    match (o1, o2) {
        (None, None) => {
            assert(enc_opt(o1) == seq!['-']);
            assert(enc_opt(o2) == seq!['-']);
            assert((enc_opt(o1) + x).len() == 1 + x.len());
            assert((enc_opt(o2) + y).len() == 1 + y.len());
            assert(x =~= y) by {
                assert(x.len() == y.len());
                assert forall|i: int| 0 <= i < x.len() implies x[i] == y[i] by {
                    assert((enc_opt(o1) + x)[1 + i] == x[i]);
                    assert((enc_opt(o2) + y)[1 + i] == y[i]);
                }
            }
        },
        (None, Some(s2)) => {
            assert((enc_opt(o1) + x)[0] == '-');
            assert((enc_opt(o2) + y)[0] == '+');
        },
        (Some(s1), None) => {
            assert((enc_opt(o1) + x)[0] == '+');
            assert((enc_opt(o2) + y)[0] == '-');
        },
        (Some(s1), Some(s2)) => {
            assert(enc_opt(o1) + x =~= seq!['+'] + (enc_str(s1) + x));
            assert(enc_opt(o2) + y =~= seq!['+'] + (enc_str(s2) + y));
            assert(enc_str(s1) + x =~= enc_str(s2) + y) by {
                assert((seq!['+'] + (enc_str(s1) + x)).skip(1) =~= enc_str(s1) + x);
                assert((seq!['+'] + (enc_str(s2) + y)).skip(1) =~= enc_str(s2) + y);
            }
            lemma_enc_str_prefix(s1, s2, x, y);
        },
    }
}

/// Reading the frames of two equally long lists off two equal streams.
proof fn lemma_enc_cat_prefix(v1: Seq<Seq<char>>, v2: Seq<Seq<char>>, x: Seq<char>, y: Seq<char>)
    requires
        v1.len() == v2.len(),
        enc_cat(v1) + x == enc_cat(v2) + y,
    ensures
        v1 == v2,
        x == y,
    decreases v1.len(),
{
    if v1.len() == 0 {
        assert(enc_cat(v1) + x =~= x);
        assert(enc_cat(v2) + y =~= y);
        assert(v1 =~= v2);
    } else {
        assert(enc_cat(v1) + x =~= enc_str(v1[0]) + (enc_cat(v1.skip(1)) + x));
        assert(enc_cat(v2) + y =~= enc_str(v2[0]) + (enc_cat(v2.skip(1)) + y));
        lemma_enc_str_prefix(v1[0], v2[0], enc_cat(v1.skip(1)) + x, enc_cat(v2.skip(1)) + y);
        lemma_enc_cat_prefix(v1.skip(1), v2.skip(1), x, y);
        assert(v1 =~= v2) by {
            assert forall|i: int| 0 <= i < v1.len() implies v1[i] == v2[i] by {
                if i > 0 {
                    assert(v1.skip(1)[i - 1] == v1[i]);
                    assert(v2.skip(1)[i - 1] == v2[i]);
                }
            }
        }
    }
}

/// Reading a counted list off the front of two equal streams.
proof fn lemma_enc_list_prefix(v1: Seq<Seq<char>>, v2: Seq<Seq<char>>, x: Seq<char>, y: Seq<char>)
    requires
        enc_list(v1) + x == enc_list(v2) + y,
    ensures
        v1 == v2,
        x == y,
{
    assert(enc_list(v1) + x =~= dec_str(v1.len()) + seq!['#'] + (enc_cat(v1) + x));
    assert(enc_list(v2) + y =~= dec_str(v2.len()) + seq!['#'] + (enc_cat(v2) + y));
    assert(!is_digit_char('#')) by {
        assert('#' as u32 == 35);
    }
    lemma_count_prefix(v1.len(), v2.len(), '#', enc_cat(v1) + x, enc_cat(v2) + y);
    lemma_enc_cat_prefix(v1, v2, x, y);
}

/// The encoding from each field on, right-associated for stepwise reading.
spec fn enc_from_frequency(v: ChatV) -> Seq<char> {
    enc_opt(v.frequency_penalty)
}

spec fn enc_from_presence(v: ChatV) -> Seq<char> {
    enc_opt(v.presence_penalty) + enc_from_frequency(v)
}

spec fn enc_from_max_tokens(v: ChatV) -> Seq<char> {
    enc_opt(opt_int_text(v.max_tokens)) + enc_from_presence(v)
}

spec fn enc_from_stop(v: ChatV) -> Seq<char> {
    enc_list(v.stop) + enc_from_max_tokens(v)
}

spec fn enc_from_top_p(v: ChatV) -> Seq<char> {
    enc_opt(v.top_p) + enc_from_stop(v)
}

spec fn enc_from_temperature(v: ChatV) -> Seq<char> {
    enc_str(v.temperature) + enc_from_top_p(v)
}

spec fn enc_from_functions(v: ChatV) -> Seq<char> {
    enc_opt(v.functions_code) + enc_from_temperature(v)
}

spec fn enc_from_messages(v: ChatV) -> Seq<char> {
    enc_str(v.messages_code) + enc_from_functions(v)
}

spec fn enc_from_instructions(v: ChatV) -> Seq<char> {
    enc_opt(v.instructions) + enc_from_messages(v)
}

#[verifier::rlimit(100)]
proof fn lemma_hash_input_assoc(v: ChatV)
    ensures
        hash_input(v) == seq!['c', 'h', 'a', 't'] + enc_from_instructions(v),
{
    assert(hash_input(v) =~= seq!['c', 'h', 'a', 't'] + enc_from_instructions(v));
}

/// Two definitions with the same hash input are the same definition: the
/// encoding keeps the stop-sequence order and every optional field's
/// presence, so no two distinct definitions collide before hashing.
#[verifier::rlimit(100)]
pub proof fn lemma_hash_input_injective(a: ChatV, b: ChatV)
    requires
        hash_input(a) == hash_input(b),
    ensures
        a == b,
{
    lemma_hash_input_assoc(a);
    lemma_hash_input_assoc(b);
    let ta = enc_from_instructions(a);
    let tb = enc_from_instructions(b);
    assert(ta =~= tb) by {
        assert((seq!['c', 'h', 'a', 't'] + ta).len() == 4 + ta.len());
        assert((seq!['c', 'h', 'a', 't'] + tb).len() == 4 + tb.len());
        assert(ta.len() == tb.len());
        assert forall|i: int| 0 <= i < ta.len() implies ta[i] == tb[i] by {
            assert((seq!['c', 'h', 'a', 't'] + ta)[4 + i] == ta[i]);
            assert((seq!['c', 'h', 'a', 't'] + tb)[4 + i] == tb[i]);
        }
    }
    lemma_enc_opt_prefix(a.instructions, b.instructions, enc_from_messages(a), enc_from_messages(b));
    lemma_enc_str_prefix(
        a.messages_code,
        b.messages_code,
        enc_from_functions(a),
        enc_from_functions(b),
    );
    lemma_enc_opt_prefix(
        a.functions_code,
        b.functions_code,
        enc_from_temperature(a),
        enc_from_temperature(b),
    );
    lemma_enc_str_prefix(a.temperature, b.temperature, enc_from_top_p(a), enc_from_top_p(b));
    lemma_enc_opt_prefix(a.top_p, b.top_p, enc_from_stop(a), enc_from_stop(b));
    lemma_enc_list_prefix(a.stop, b.stop, enc_from_max_tokens(a), enc_from_max_tokens(b));
    lemma_enc_opt_prefix(
        opt_int_text(a.max_tokens),
        opt_int_text(b.max_tokens),
        enc_from_presence(a),
        enc_from_presence(b),
    );
    assert(a.max_tokens == b.max_tokens) by {
        match (a.max_tokens, b.max_tokens) {
            (Some(t1), Some(t2)) => {
                lemma_int_dec_str_injective(t1, t2);
            },
            _ => {},
        }
    }
    lemma_enc_opt_prefix(
        a.presence_penalty,
        b.presence_penalty,
        enc_from_frequency(a),
        enc_from_frequency(b),
    );
    assert(enc_opt(a.frequency_penalty) + Seq::<char>::empty() =~= enc_from_frequency(a));
    assert(enc_opt(b.frequency_penalty) + Seq::<char>::empty() =~= enc_from_frequency(b));
    lemma_enc_opt_prefix(
        a.frequency_penalty,
        b.frequency_penalty,
        Seq::<char>::empty(),
        Seq::<char>::empty(),
    );
}

/// Identical definitions hash identically: the hash input, and so the
/// content hash, depends on the definition's fields alone and on nothing
/// from any particular run.
pub proof fn lemma_hash_deterministic(a: ChatV, b: ChatV)
    requires
        a == b,
    ensures
        blake3_hex_of(hash_input(a)) == blake3_hex_of(hash_input(b)),
{
}

/// The hex digest that the content-addressed cache keys on. What it is for
/// given bytes only the hash function itself says; it depends on its input
/// alone.
pub uninterp spec fn blake3_hex_of(s: Seq<char>) -> Seq<char>;

/// Relies on `blake3::hash` and `blake3::Hash::to_hex`: the digest of the
/// UTF-8 bytes of the input, rendered as lowercase hex, a pure function of
/// the input alone.
#[verifier::external_body]
fn blake3_hex(s: &str) -> (r: String)
    ensures
        r@ == blake3_hex_of(s@),
{
    String::from(blake3::hash(s.as_bytes()).to_hex().as_str())
}

/// Appends a length-framed string.
fn push_enc_str(out: &mut String, s: &str)
    ensures
        final (out)@ == old(out)@ + enc_str(s@),
{
    let n = s.unicode_len();
    push_dec(out, n as u64);
    out.append(":");
    out.append(s);
    proof {
        reveal_strlit(":");
        assert(":"@ =~= seq![':']);
        assert(old(out)@ + enc_str(s@) =~= old(out)@ + dec_str(n as nat) + ":"@ + s@);
    }
}

/// Appends an optional field with its presence mark.
fn push_enc_opt(out: &mut String, o: &Option<String>)
    ensures
        final (out)@ == old(out)@ + enc_opt(crate::chat::opt_view(*o)),
{
    match o {
        None => {
            out.append("-");
            proof {
                reveal_strlit("-");
                assert("-"@ =~= seq!['-']);
                assert(old(out)@ + enc_opt(None) =~= old(out)@ + "-"@);
            }
        },
        Some(s) => {
            out.append("+");
            let ghost mid = out@;
            push_enc_str(out, s.as_str());
            proof {
                reveal_strlit("+");
                assert("+"@ =~= seq!['+']);
                assert(old(out)@ + enc_opt(Some(s@)) =~= (old(out)@ + "+"@) + enc_str(s@));
            }
        },
    }
}

/// Appends a counted list of framed items.
#[verifier::loop_isolation(false)]
fn push_enc_list(out: &mut String, v: &Vec<String>)
    ensures
        final (out)@ == old(out)@ + enc_list(v@.map_values(|s: String| s@)),
{
    let ghost vv = v@.map_values(|s: String| s@);
    push_dec(out, v.len() as u64);
    out.append("#");
    proof {
        reveal_strlit("#");
        assert("#"@ =~= seq!['#']);
    }
    let ghost head = out@;
    let mut i: usize = 0;
    proof {
        assert(vv.skip(0) =~= vv);
    }
    while i < v.len()
        invariant
            0 <= i <= v.len(),
            out@ + enc_cat(vv.skip(i as int)) == head + enc_cat(vv),
        decreases v.len() - i,
    {
        let ghost tail = vv.skip(i as int);
        proof {
            assert(tail[0] == vv[i as int]);
            assert(tail.skip(1) =~= vv.skip(i + 1));
        }
        let ghost before = out@;
        push_enc_str(out, v[i].as_str());
        i = i + 1;
        proof {
            assert(enc_cat(tail) == enc_str(tail[0]) + enc_cat(tail.skip(1)));
            assert(out@ + enc_cat(vv.skip(i as int)) =~= before + enc_cat(tail)) by {
                assert(out@ =~= before + enc_str(vv[i - 1]));
            }
        }
    }
    proof {
        assert(vv.skip(v@.len() as int) =~= Seq::<Seq<char>>::empty());
        assert(out@ + Seq::<char>::empty() =~= out@);
        assert(head =~= old(out)@ + dec_str(v@.len() as nat) + "#"@);
        assert(old(out)@ + enc_list(vv) =~= head + enc_cat(vv));
    }
}

/// Appends the optional token cap in decimal.
fn push_enc_opt_int(out: &mut String, o: &Option<i32>)
    ensures
        final (out)@ == old(out)@ + enc_opt(
            opt_int_text(
                match *o {
                    Some(t) => Some(t as int),
                    None => None,
                },
            ),
        ),
{
    match o {
        None => {
            out.append("-");
            proof {
                reveal_strlit("-");
                assert("-"@ =~= seq!['-']);
                assert(old(out)@ + seq!['-'] =~= old(out)@ + "-"@);
            }
        },
        Some(t) => {
            out.append("+");
            let ghost mid = out@;
            let mut digits = String::new();
            push_int_dec(&mut digits, *t);
            let n = digits.as_str().unicode_len();
            push_dec(out, n as u64);
            out.append(":");
            out.append(digits.as_str());
            proof {
                reveal_strlit("+");
                reveal_strlit(":");
                assert("+"@ =~= seq!['+']);
                assert(":"@ =~= seq![':']);
                assert(digits@ =~= int_dec_str(*t as int));
                assert(old(out)@ + enc_opt(Some(int_dec_str(*t as int))) =~= (((old(out)@ + "+"@)
                    + dec_str(n as nat)) + ":"@) + digits@);
            }
        },
    }
}

impl Chat {
    /// The text that the content hash digests: deterministic in the
    /// definition's fields and nothing else.
    pub fn hash_text(&self) -> (r: String)
        ensures
            r@ == hash_input(self@),
    {
        let mut out = String::new();
        out.append("chat");
        proof {
            reveal_strlit("chat");
            assert(Seq::<char>::empty() + "chat"@ =~= seq!['c', 'h', 'a', 't']);
        }
        push_enc_opt(&mut out, &self.instructions);
        push_enc_str(&mut out, self.messages_code.as_str());
        push_enc_opt(&mut out, &self.functions_code);
        push_enc_str(&mut out, self.temperature.as_str());
        push_enc_opt(&mut out, &self.top_p);
        push_enc_list(&mut out, &self.stop);
        push_enc_opt_int(&mut out, &self.max_tokens);
        push_enc_opt(&mut out, &self.presence_penalty);
        push_enc_opt(&mut out, &self.frequency_penalty);
        out
    }

    /// The deterministic content hash of this definition: the digest of
    /// `hash_input`, which two definitions share only if they are equal.
    pub fn inner_hash(&self) -> (r: String)
        ensures
            r@ == blake3_hex_of(hash_input(self@)),
    {
        let text = self.hash_text();
        blake3_hex(text.as_str())
    }
}

} // verus!
