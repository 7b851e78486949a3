//! JSON text fragments: string literals and comma-separated lists.
use vstd::prelude::*;

verus! {

/// The lower-case hexadecimal digit for a value below sixteen.
pub open spec fn hex_digit(n: nat) -> char {
    if n < 10 {
        (('0' as u32) + n) as char
    } else {
        (('a' as u32) + (n - 10)) as char
    }
}

/// How one character stands inside a JSON string literal: quote, backslash and
/// the control characters are escaped, everything else stands as it is.
pub open spec fn escaped_char(c: char) -> Seq<char> {
    if c == '"' {
        seq!['\\', '"']
    } else if c == '\\' {
        seq!['\\', '\\']
    } else if c == '\u{8}' {
        seq!['\\', 'b']
    } else if c == '\t' {
        seq!['\\', 't']
    } else if c == '\n' {
        seq!['\\', 'n']
    } else if c == '\u{c}' {
        seq!['\\', 'f']
    } else if c == '\r' {
        seq!['\\', 'r']
    } else if (c as u32) < 0x20 {
        seq!['\\', 'u', '0', '0', hex_digit((c as u32 / 16) as nat), hex_digit((c as u32 % 16) as nat)]
    } else {
        seq![c]
    }
}

/// The body of a JSON string literal for `s`, without the enclosing quotes.
pub open spec fn escaped(s: Seq<char>) -> Seq<char>
    decreases s.len(),
{
    if s.len() == 0 {
        Seq::empty()
    } else {
        escaped(s.drop_last()) + escaped_char(s.last())
    }
}

/// The JSON string literal for `s`.
pub open spec fn quoted(s: Seq<char>) -> Seq<char> {
    seq!['"'] + escaped(s) + seq!['"']
}

/// The parts written one after the other with a comma between neighbours.
pub open spec fn comma_joined(parts: Seq<Seq<char>>) -> Seq<char>
    decreases parts.len(),
{
    if parts.len() == 0 {
        Seq::empty()
    } else if parts.len() == 1 {
        parts[0]
    } else {
        comma_joined(parts.drop_last()) + seq![','] + parts.last()
    }
}

/// A JSON array of strings.
pub open spec fn string_array(items: Seq<Seq<char>>) -> Seq<char> {
    seq!['['] + comma_joined(items.map_values(|s: Seq<char>| quoted(s))) + seq![']']
}

/// `"key":value`, one member of a JSON object.
pub open spec fn member(key: Seq<char>, value: Seq<char>) -> Seq<char> {
    quoted(key) + seq![':'] + value
}

/// A JSON object whose members are already written out.
pub open spec fn object(members: Seq<Seq<char>>) -> Seq<char> {
    seq!['{'] + comma_joined(members) + seq!['}']
}

proof fn lemma_escaped_char_shape(c: char)
    ensures
        escaped_char(c).len() >= 1,
        (escaped_char(c)[0] == '\\') <== (c == '\\' || c == '"' || (c as u32) < 0x20),
        !(c == '\\' || c == '"' || (c as u32) < 0x20) ==> escaped_char(c) == seq![c],
{
}

proof fn lemma_hex_digit_injective(a: nat, b: nat)
    requires
        a < 16,
        b < 16,
        hex_digit(a) == hex_digit(b),
    ensures
        a == b,
{
}

/// A character's escape is told apart from every other one by its own text
/// alone: no escape is a prefix of another's.
proof fn lemma_escaped_char_prefix_free(a: char, b: char, rest_a: Seq<char>, rest_b: Seq<char>)
    requires
        escaped_char(a) + rest_a == escaped_char(b) + rest_b,
    ensures
        a == b,
        rest_a == rest_b,
{
    let ea = escaped_char(a);
    let eb = escaped_char(b);
    lemma_escaped_char_shape(a);
    lemma_escaped_char_shape(b);
    assert((ea + rest_a)[0] == ea[0]);
    assert((eb + rest_b)[0] == eb[0]);
    if ea.len() >= 2 && eb.len() >= 2 {
        assert((ea + rest_a)[1] == ea[1]);
        assert((eb + rest_b)[1] == eb[1]);
        if ea.len() == 6 && eb.len() == 6 {
            assert((ea + rest_a)[4] == ea[4]);
            assert((eb + rest_b)[4] == eb[4]);
            assert((ea + rest_a)[5] == ea[5]);
            assert((eb + rest_b)[5] == eb[5]);
            lemma_hex_digit_injective((a as u32 / 16) as nat, (b as u32 / 16) as nat);
            lemma_hex_digit_injective((a as u32 % 16) as nat, (b as u32 % 16) as nat);
            assert(a as u32 == b as u32);
        }
    }
    assert(a == b);
    assert(rest_a =~= (ea + rest_a).skip(ea.len() as int));
    assert(rest_b =~= (eb + rest_b).skip(eb.len() as int));
}

proof fn lemma_escaped_front(s: Seq<char>)
    requires
        s.len() > 0,
    ensures
        escaped(s) == escaped_char(s[0]) + escaped(s.drop_first()),
    decreases s.len(),
{
    if s.len() == 1 {
        assert(s.drop_last() =~= Seq::<char>::empty());
        assert(s.drop_first() =~= Seq::<char>::empty());
        assert(escaped(s) =~= escaped_char(s[0]) + escaped(s.drop_first()));
    } else {
        lemma_escaped_front(s.drop_last());
        assert(s.drop_last().drop_first() =~= s.drop_first().drop_last());
        assert(s.drop_first().last() == s.last());
        assert(escaped(s) =~= escaped_char(s[0]) + escaped(s.drop_first()));
    }
}

/// Different texts have different JSON string literals, and a literal ends
/// where its closing quote stands: whatever follows it is read back as well.
pub proof fn lemma_quoted_prefix_injective(a: Seq<char>, b: Seq<char>, ra: Seq<char>, rb: Seq<char>)
    requires
        quoted(a) + ra == quoted(b) + rb,
    ensures
        a == b,
        ra == rb,
{
    assert(escaped(a) + (seq!['"'] + ra) =~= (quoted(a) + ra).drop_first());
    assert(escaped(b) + (seq!['"'] + rb) =~= (quoted(b) + rb).drop_first());
    lemma_escaped_then_quote(a, b, ra, rb);
}

/// Different texts have different JSON string literals.
pub proof fn lemma_quoted_injective(a: Seq<char>, b: Seq<char>)
    requires
        quoted(a) == quoted(b),
    ensures
        a == b,
{
    assert(quoted(a) + Seq::<char>::empty() =~= quoted(a));
    assert(quoted(b) + Seq::<char>::empty() =~= quoted(b));
    lemma_quoted_prefix_injective(a, b, Seq::empty(), Seq::empty());
}

proof fn lemma_escaped_then_quote(a: Seq<char>, b: Seq<char>, ra: Seq<char>, rb: Seq<char>)
    requires
        escaped(a) + (seq!['"'] + ra) == escaped(b) + (seq!['"'] + rb),
    ensures
        a == b,
        ra == rb,
    decreases a.len(),
{
    if a.len() == 0 {
        assert(escaped(a) + (seq!['"'] + ra) =~= seq!['"'] + ra);
        if b.len() > 0 {
            lemma_escaped_front(b);
            lemma_escaped_char_shape(b[0]);
            assert((escaped(b) + (seq!['"'] + rb))[0] == escaped_char(b[0])[0]);
        }
        assert(escaped(b) + (seq!['"'] + rb) =~= seq!['"'] + rb);
        assert(ra =~= (seq!['"'] + ra).drop_first());
        assert(rb =~= (seq!['"'] + rb).drop_first());
        assert(a =~= b);
    } else {
        lemma_escaped_front(a);
        lemma_escaped_char_shape(a[0]);
        if b.len() == 0 {
            assert(escaped(b) + (seq!['"'] + rb) =~= seq!['"'] + rb);
            assert((escaped(a) + (seq!['"'] + ra))[0] == escaped_char(a[0])[0]);
        }
        lemma_escaped_front(b);
        let ta = escaped(a.drop_first()) + (seq!['"'] + ra);
        let tb = escaped(b.drop_first()) + (seq!['"'] + rb);
        assert(escaped_char(a[0]) + ta =~= escaped(a) + (seq!['"'] + ra));
        assert(escaped_char(b[0]) + tb =~= escaped(b) + (seq!['"'] + rb));
        lemma_escaped_char_prefix_free(a[0], b[0], ta, tb);
        lemma_escaped_then_quote(a.drop_first(), b.drop_first(), ra, rb);
        assert(a =~= seq![a[0]] + a.drop_first());
        assert(b =~= seq![b[0]] + b.drop_first());
    }
}

proof fn lemma_comma_joined_front(parts: Seq<Seq<char>>)
    requires
        parts.len() >= 2,
    ensures
        comma_joined(parts) == parts[0] + seq![','] + comma_joined(parts.drop_first()),
    decreases parts.len(),
{
    if parts.len() == 2 {
        assert(parts.drop_last() =~= seq![parts[0]]);
        assert(parts.drop_first() =~= seq![parts[1]]);
        assert(comma_joined(parts.drop_last()) == parts[0]);
        assert(comma_joined(parts.drop_first()) == parts[1]);
        assert(parts.last() == parts[1]);
    } else {
        lemma_comma_joined_front(parts.drop_last());
        assert(parts.drop_last().drop_first() =~= parts.drop_first().drop_last());
        assert(parts.drop_first().last() == parts.last());
        assert(comma_joined(parts) =~= parts[0] + seq![','] + comma_joined(parts.drop_first()));
    }
}

proof fn lemma_list_body_injective(x: Seq<Seq<char>>, y: Seq<Seq<char>>)
    requires
        comma_joined(x.map_values(|s: Seq<char>| quoted(s))) + seq![']'] == comma_joined(
            y.map_values(|s: Seq<char>| quoted(s)),
        ) + seq![']'],
    ensures
        x == y,
    decreases x.len(),
{
    let qx = x.map_values(|s: Seq<char>| quoted(s));
    let qy = y.map_values(|s: Seq<char>| quoted(s));
    let whole = comma_joined(qx) + seq![']'];
    // The text after the first element: `]` if it is the last, else `,` and the rest.
    let tail_x = if x.len() >= 2 { seq![','] + comma_joined(qx.drop_first()) + seq![']'] } else { seq![']'] };
    let tail_y = if y.len() >= 2 { seq![','] + comma_joined(qy.drop_first()) + seq![']'] } else { seq![']'] };
    if x.len() >= 1 {
        if x.len() >= 2 {
            lemma_comma_joined_front(qx);
        }
        assert(whole =~= quoted(x[0]) + tail_x);
    }
    if y.len() >= 1 {
        if y.len() >= 2 {
            lemma_comma_joined_front(qy);
        }
        assert(whole =~= quoted(y[0]) + tail_y);
    }
    if x.len() == 0 || y.len() == 0 {
        assert(qx.len() == 0 ==> whole =~= seq![']']);
        assert(qy.len() == 0 ==> whole =~= seq![']']);
        if x.len() > 0 {
            assert(whole[0] == quoted(x[0])[0]);
        }
        if y.len() > 0 {
            assert(whole[0] == quoted(y[0])[0]);
        }
        assert(x =~= y);
    } else {
        lemma_quoted_prefix_injective(x[0], y[0], tail_x, tail_y);
        assert(tail_x[0] == tail_y[0]);
        if x.len() >= 2 {
            assert(qx.drop_first() =~= x.drop_first().map_values(|s: Seq<char>| quoted(s)));
            assert(qy.drop_first() =~= y.drop_first().map_values(|s: Seq<char>| quoted(s)));
            assert(comma_joined(qx.drop_first()) + seq![']'] =~= tail_x.drop_first());
            assert(comma_joined(qy.drop_first()) + seq![']'] =~= tail_y.drop_first());
            lemma_list_body_injective(x.drop_first(), y.drop_first());
        }
        assert(x =~= seq![x[0]] + x.drop_first());
        assert(y =~= seq![y[0]] + y.drop_first());
    }
}

/// Different lists of texts have different JSON arrays.
pub proof fn lemma_string_array_injective(x: Seq<Seq<char>>, y: Seq<Seq<char>>)
    requires
        string_array(x) == string_array(y),
    ensures
        x == y,
{
    let bx = comma_joined(x.map_values(|s: Seq<char>| quoted(s))) + seq![']'];
    let by_ = comma_joined(y.map_values(|s: Seq<char>| quoted(s))) + seq![']'];
    assert(bx =~= string_array(x).drop_first());
    assert(by_ =~= string_array(y).drop_first());
    lemma_list_body_injective(x, y);
}

/// Relies on `serde_json::to_string` for a `str`: it writes the string literal,
/// escaping exactly `"`, `\` and the characters below U+0020 (the short forms
/// `\b \t \n \f \r`, else `\u00` and two lower-case hex digits). Serializing a
/// `str` into the in-memory buffer cannot fail, so the error arm is never taken.
#[verifier::external_body]
pub(crate) fn to_json_string(s: &str) -> (r: String)
    ensures
        r@ == quoted(s@),
{
    match serde_json::to_string(s) {
        Ok(t) => t,
        Err(_) => String::new(),
    }
}

/// The JSON string literal for `s`.
pub fn quote(s: &str) -> (r: String)
    ensures
        r@ == quoted(s@),
{
    to_json_string(s)
}

/// Writes the parts after `out`, separated by commas.
pub fn append_comma_joined(out: &mut String, parts: &Vec<String>)
    ensures
        final(out)@ == old(out)@ + comma_joined(parts@.map_values(|p: String| p@)),
{
    let ghost start = out@;
    let ghost views = parts@.map_values(|p: String| p@);
    let mut i: usize = 0;
    while i < parts.len()
        invariant
            i <= parts.len(),
            views == parts@.map_values(|p: String| p@),
            out@ == start + comma_joined(views.take(i as int)),
        decreases parts.len() - i,
    {
        let ghost before = out@;
        if i > 0 {
            out.append(",");
        }
        out.append(parts[i].as_str());
        proof {
            reveal_strlit(",");
            let next = views.take(i as int + 1);
            assert(next.drop_last() =~= views.take(i as int));
            assert(next.last() == parts@[i as int]@);
            if i == 0 {
                assert(views.take(0) =~= Seq::<Seq<char>>::empty());
                assert(comma_joined(next) == next[0]);
                assert(out@ =~= start + comma_joined(next));
            } else {
                assert(comma_joined(next) == comma_joined(views.take(i as int)) + seq![','] + parts@[i as int]@);
                assert(out@ =~= start + comma_joined(next));
            }
        }
        i = i + 1;
    }
    assert(views.take(parts.len() as int) =~= views);
}

} // verus!
