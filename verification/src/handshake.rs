//! The body with which the owner of a target is asked for a stream: one JSON
//! object, written without blanks.

use crate::target::{Establish, EstablishView, Target, TargetView, MAX_HANDSHAKE_BYTES};
use crate::text::{decimal, decimal_text, decimals_are_told_apart, join};
use vstd::prelude::*;
use vstd::utf8::*;

verus! {

/// The hexadecimal digit of a number below sixteen.
pub open spec fn hex_digit(d: nat) -> char {
    if d < 10 {
        (48 + d) as char
    } else {
        (87 + d) as char
    }
}

/// A character as it stands in a JSON string.
pub open spec fn json_escape(c: char) -> Seq<char> {
    if c == '"' || c == '\\' {
        seq!['\\', c]
    } else if c == '\u{8}' {
        seq!['\\', 'b']
    } else if c == '\t' {
        seq!['\\', 't']
    } else if c == '\n' {
        seq!['\\', 'n']
    } else if c == '\u{c}' {
        seq!['\\', 'f']
    } else if c == '\r' {
        seq!['\\', 'r']
    } else if c <= '\u{1f}' {
        seq!['\\', 'u', '0', '0', hex_digit(c as nat / 16), hex_digit(c as nat % 16)]
    } else {
        seq![c]
    }
}

/// The characters of a text as they stand in a JSON string.
pub open spec fn json_contents(text: Seq<char>) -> Seq<char>
    decreases text.len(),
{
    if text.len() == 0 {
        Seq::empty()
    } else {
        json_escape(text[0]) + json_contents(text.drop_first())
    }
}

/// A text as JSON writes it.
pub open spec fn json_string(text: Seq<char>) -> Seq<char> {
    seq!['"'] + json_contents(text) + seq!['"']
}

/// Calls `serde_json::to_string` on a `str`. Claims that it succeeds, since all
/// that it does is to append to a vector, and that it writes the text between
/// quotes. A quote and a backslash get a backslash before them. A control
/// character below the space gets its short escape, where JSON has one, and else
/// its number in four hexadecimal digits. Every other character is written as it
/// is.
#[verifier::external_body]
fn write_json_string(text: &str) -> (written: Option<String>)
    ensures
        written is Some,
        written->0@ == json_string(text@),
{
    serde_json::to_string(text).ok()
}

/// A target as the handshake writes it.
pub open spec fn target_text(target: TargetView) -> Seq<char> {
    "{\"script\":"@ + json_string(target.script) + ",\"class_name\":"@ + json_string(target.class_name)
        + ",\"object_name\":"@ + json_string(target.object_name) + ",\"port\":"@ + decimal_text(target.port as nat)
        + ",\"startup_path\":"@ + json_string(target.startup_path) + "}"@
}

/// The end of a handshake, which tells of the handoff.
pub open spec fn handoff_text(capacity_handoff: bool) -> Seq<char> {
    if capacity_handoff {
        "true}"@
    } else {
        "false}"@
    }
}

/// The body of a handshake.
pub open spec fn handshake_text(establish: EstablishView) -> Seq<char> {
    "{\"target\":"@ + target_text(establish.target) + ",\"capacity_handoff\":"@ + handoff_text(
        establish.capacity_handoff,
    )
}

/// The number of bytes that a handshake has.
pub open spec fn handshake_length(establish: EstablishView) -> nat {
    encode_utf8(handshake_text(establish)).len()
}

/// Writes a member of an object: its name with what stands before it, and a
/// text.
fn add_text(start: String, name: &str, text: &str) -> (written: String)
    ensures
        written@ == start@ + name@ + json_string(text@),
{
    let named = join(start.as_str(), name);
    join(named.as_str(), write_json_string(text).unwrap().as_str())
}

fn write_target(target: &Target) -> (written: String)
    ensures
        written@ == target_text(target@),
{
    let script = join("{\"script\":", write_json_string(target.script.as_str()).unwrap().as_str());
    let class = add_text(script, ",\"class_name\":", target.class_name.as_str());
    let object = add_text(class, ",\"object_name\":", target.object_name.as_str());
    let before_port = join(object.as_str(), ",\"port\":");
    let port = join(before_port.as_str(), decimal(target.port as u64).as_str());
    let path = add_text(port, ",\"startup_path\":", target.startup_path.as_str());
    join(path.as_str(), "}")
}

/// Writes the body of a handshake.
pub fn write_handshake(establish: &Establish) -> (body: String)
    ensures
        body@ == handshake_text(establish@),
        body@ == "{\"target\":"@ + ("{\"script\":"@ + json_string(establish.target.script@) + ",\"class_name\":"@
            + json_string(establish.target.class_name@) + ",\"object_name\":"@ + json_string(
            establish.target.object_name@,
        ) + ",\"port\":"@ + decimal_text(establish.target.port as nat) + ",\"startup_path\":"@ + json_string(
            establish.target.startup_path@,
        ) + "}"@) + ",\"capacity_handoff\":"@ + (if establish.capacity_handoff {
            "true}"@
        } else {
            "false}"@
        }),
{
    let start = join("{\"target\":", write_target(&establish.target).as_str());
    let before_flag = join(start.as_str(), ",\"capacity_handoff\":");
    if establish.capacity_handoff {
        join(before_flag.as_str(), "true}")
    } else {
        join(before_flag.as_str(), "false}")
    }
}

/// Whether the body of a handshake is short enough for a peer to read.
pub fn fits(establish: &Establish) -> (short: bool)
    ensures
        short == (handshake_length(establish@) <= MAX_HANDSHAKE_BYTES),
        short <==> encode_utf8(handshake_text(establish@)).len() <= 16_384,
{
    write_handshake(establish).as_str().as_bytes().len() <= MAX_HANDSHAKE_BYTES
}

proof fn encoded_parts_add_up(first: Seq<char>, second: Seq<char>)
    ensures
        encode_utf8(first + second) == encode_utf8(first) + encode_utf8(second),
    decreases first.len(),
{
    if first.len() == 0 {
        assert(first + second =~= second);
        assert(encode_utf8(first) + encode_utf8(second) =~= encode_utf8(second));
    } else {
        encoded_parts_add_up(first.drop_first(), second);
        assert((first + second).drop_first() =~= first.drop_first() + second);
        assert((first + second)[0] == first[0]);
        assert(encode_utf8(first + second) =~= encode_utf8(first) + encode_utf8(second));
    }
}

/// Asking for a handoff makes the handshake of a target one byte shorter, so
/// that a target whose handshake without a handoff fits has none that does not.
pub proof fn handoff_fits_too(target: TargetView)
    ensures
        handshake_length(EstablishView { target, capacity_handoff: true }) + 1 == handshake_length(
            EstablishView { target, capacity_handoff: false },
        ),
{
    let start = "{\"target\":"@ + target_text(target) + ",\"capacity_handoff\":"@;
    encoded_parts_add_up(start, handoff_text(true));
    encoded_parts_add_up(start, handoff_text(false));
    reveal_strlit("true}");
    reveal_strlit("false}");
    assert(is_ascii_chars("true}"@));
    assert(is_ascii_chars("false}"@));
    is_ascii_chars_encode_utf8("true}"@);
    is_ascii_chars_encode_utf8("false}"@);
}

proof fn escapes_are_told_apart(c: char, d: char, after_c: Seq<char>, after_d: Seq<char>)
    requires
        json_escape(c) + after_c == json_escape(d) + after_d,
    ensures
        c == d,
        after_c == after_d,
{
    let whole = json_escape(c) + after_c;
    let one = json_escape(c);
    let other = json_escape(d);
    assert(whole[0] == one[0] && whole[0] == other[0]);
    if one.len() > 1 {
        assert(other.len() > 1);
        assert(whole[1] == one[1] && whole[1] == other[1]);
        if one.len() > 2 {
            assert(other.len() > 2);
            assert(whole[4] == one[4] && whole[4] == other[4]);
            assert(whole[5] == one[5] && whole[5] == other[5]);
        }
    }
    assert(c == d);
    assert(whole.skip(one.len() as int) =~= after_c);
    assert(whole.skip(one.len() as int) =~= after_d);
}

proof fn contents_are_told_apart(a: Seq<char>, b: Seq<char>, after_a: Seq<char>, after_b: Seq<char>)
    requires
        json_contents(a) + (seq!['"'] + after_a) == json_contents(b) + (seq!['"'] + after_b),
    ensures
        a == b,
        after_a == after_b,
    decreases a.len(),
{
    let whole = json_contents(a) + (seq!['"'] + after_a);
    if a.len() == 0 && b.len() == 0 {
        assert(whole.skip(1) =~= after_a);
        assert(whole.skip(1) =~= after_b);
        assert(a =~= b);
    } else if a.len() == 0 {
        assert(whole[0] == '"');
        assert(whole[0] == json_escape(b[0])[0]);
    } else if b.len() == 0 {
        assert(whole[0] == '"');
        assert(whole[0] == json_escape(a[0])[0]);
    } else {
        let rest_a = json_contents(a.drop_first()) + (seq!['"'] + after_a);
        let rest_b = json_contents(b.drop_first()) + (seq!['"'] + after_b);
        assert(whole =~= json_escape(a[0]) + rest_a);
        assert(whole =~= json_escape(b[0]) + rest_b);
        escapes_are_told_apart(a[0], b[0], rest_a, rest_b);
        contents_are_told_apart(a.drop_first(), b.drop_first(), after_a, after_b);
        assert(a =~= seq![a[0]] + a.drop_first());
        assert(b =~= seq![b[0]] + b.drop_first());
    }
}

/// A JSON string can be told from what follows it, and gives its text away.
pub proof fn strings_are_told_apart(a: Seq<char>, b: Seq<char>, after_a: Seq<char>, after_b: Seq<char>)
    requires
        json_string(a) + after_a == json_string(b) + after_b,
    ensures
        a == b,
        after_a == after_b,
{
    let whole = json_string(a) + after_a;
    assert(whole.skip(1) =~= json_contents(a) + (seq!['"'] + after_a));
    assert(whole.skip(1) =~= json_contents(b) + (seq!['"'] + after_b));
    contents_are_told_apart(a, b, after_a, after_b);
}

proof fn same_start(start: Seq<char>, one: Seq<char>, other: Seq<char>)
    requires
        start + one == start + other,
    ensures
        one == other,
{
    let whole = start + one;
    assert(whole.skip(start.len() as int) =~= one);
    assert(whole.skip(start.len() as int) =~= other);
}

/// What follows the port in a handshake.
spec fn after_port(establish: EstablishView) -> Seq<char> {
    ",\"startup_path\":"@ + (json_string(establish.target.startup_path) + ("}"@ + (",\"capacity_handoff\":"@
        + handoff_text(establish.capacity_handoff))))
}

/// What follows the script in a handshake.
spec fn after_script(establish: EstablishView) -> Seq<char> {
    ",\"class_name\":"@ + (json_string(establish.target.class_name) + (",\"object_name\":"@ + (json_string(
        establish.target.object_name,
    ) + (",\"port\":"@ + (decimal_text(establish.target.port as nat) + after_port(establish))))))
}

proof fn regrouped(a: Seq<char>, b: Seq<char>, c: Seq<char>)
    ensures
        a + b + c == a + (b + c),
{
    assert(a + b + c =~= a + (b + c));
}

/// A handshake is its script with what stands before and after it.
proof fn script_splits(establish: EstablishView)
    ensures
        handshake_text(establish) == "{\"target\":"@ + ("{\"script\":"@ + (json_string(establish.target.script)
            + after_script(establish))),
{
    let target = establish.target;
    let a = "{\"script\":"@;
    let b = json_string(target.script);
    let c = ",\"class_name\":"@;
    let d = json_string(target.class_name);
    let e = ",\"object_name\":"@;
    let f = json_string(target.object_name);
    let g = ",\"port\":"@;
    let h = decimal_text(target.port as nat);
    let i = ",\"startup_path\":"@;
    let j = json_string(target.startup_path);
    let k = "}"@;
    let l = ",\"capacity_handoff\":"@;
    let m = handoff_text(establish.capacity_handoff);
    let z = "{\"target\":"@;
    let end = l + m;
    regrouped(z + target_text(target), l, m);
    regrouped(z, target_text(target), end);
    regrouped(a + b + c + d + e + f + g + h + i + j, k, end);
    regrouped(a + b + c + d + e + f + g + h + i, j, k + end);
    regrouped(a + b + c + d + e + f + g + h, i, j + (k + end));
    let rest = i + (j + (k + end));
    regrouped(a + b + c + d + e + f + g, h, rest);
    regrouped(a + b + c + d + e + f, g, h + rest);
    regrouped(a + b + c + d + e, f, g + (h + rest));
    regrouped(a + b + c + d, e, f + (g + (h + rest)));
    regrouped(a + b + c, d, e + (f + (g + (h + rest))));
    regrouped(a + b, c, d + (e + (f + (g + (h + rest)))));
    regrouped(a, b, c + (d + (e + (f + (g + (h + rest))))));
}

proof fn ends_are_told_apart(one: EstablishView, other: EstablishView)
    requires
        after_port(one) == after_port(other),
    ensures
        one.target.startup_path == other.target.startup_path,
        one.capacity_handoff == other.capacity_handoff,
{
    let flag_one = handoff_text(one.capacity_handoff);
    let flag_other = handoff_text(other.capacity_handoff);
    let end_one = "}"@ + (",\"capacity_handoff\":"@ + flag_one);
    let end_other = "}"@ + (",\"capacity_handoff\":"@ + flag_other);
    let path_one = one.target.startup_path;
    let path_other = other.target.startup_path;
    same_start(",\"startup_path\":"@, json_string(path_one) + end_one, json_string(path_other) + end_other);
    strings_are_told_apart(path_one, path_other, end_one, end_other);
    same_start("}"@, ",\"capacity_handoff\":"@ + flag_one, ",\"capacity_handoff\":"@ + flag_other);
    same_start(",\"capacity_handoff\":"@, flag_one, flag_other);
    reveal_strlit("true}");
    reveal_strlit("false}");
    assert("true}"@[0] != "false}"@[0]);
}

proof fn middles_are_told_apart(one: EstablishView, other: EstablishView)
    requires
        after_script(one) == after_script(other),
    ensures
        one.target.class_name == other.target.class_name,
        one.target.object_name == other.target.object_name,
        one.target.port == other.target.port,
        after_port(one) == after_port(other),
{
    let p = one.target;
    let q = other.target;
    let number_one = decimal_text(p.port as nat) + after_port(one);
    let number_other = decimal_text(q.port as nat) + after_port(other);
    let port_one = ",\"port\":"@ + number_one;
    let port_other = ",\"port\":"@ + number_other;
    let object_one = ",\"object_name\":"@ + (json_string(p.object_name) + port_one);
    let object_other = ",\"object_name\":"@ + (json_string(q.object_name) + port_other);
    same_start(",\"class_name\":"@, json_string(p.class_name) + object_one, json_string(q.class_name) + object_other);
    strings_are_told_apart(p.class_name, q.class_name, object_one, object_other);
    same_start(",\"object_name\":"@, json_string(p.object_name) + port_one, json_string(q.object_name) + port_other);
    strings_are_told_apart(p.object_name, q.object_name, port_one, port_other);
    same_start(",\"port\":"@, number_one, number_other);
    reveal_strlit(",\"startup_path\":");
    assert(after_port(one)[0] == ',' && after_port(other)[0] == ',');
    decimals_are_told_apart(p.port as nat, q.port as nat, after_port(one), after_port(other));
}

/// Every handshake asks for one thing: the bytes give away the whole target and
/// whether a handoff is asked for. So what is signed for one target stands for no
/// other.
pub proof fn handshakes_are_told_apart(one: EstablishView, other: EstablishView)
    requires
        encode_utf8(handshake_text(one)) == encode_utf8(handshake_text(other)),
    ensures
        one == other,
{
    encode_utf8_decode_utf8(handshake_text(one));
    encode_utf8_decode_utf8(handshake_text(other));
    script_splits(one);
    script_splits(other);
    let script_one = json_string(one.target.script) + after_script(one);
    let script_other = json_string(other.target.script) + after_script(other);
    same_start("{\"target\":"@, "{\"script\":"@ + script_one, "{\"script\":"@ + script_other);
    same_start("{\"script\":"@, script_one, script_other);
    strings_are_told_apart(one.target.script, other.target.script, after_script(one), after_script(other));
    middles_are_told_apart(one, other);
    ends_are_told_apart(one, other);
}

/// The handshake is one JSON object of two members: the target, an object that
/// holds the five fields by their names, and the flag of the handoff. Its length
/// is that of its bytes.
pub proof fn handshakes_hold_every_field(establish: EstablishView)
    ensures
        handshake_text(establish) == "{\"target\":"@ + ("{\"script\":"@ + json_string(establish.target.script)
            + ",\"class_name\":"@ + json_string(establish.target.class_name) + ",\"object_name\":"@ + json_string(
            establish.target.object_name,
        ) + ",\"port\":"@ + decimal_text(establish.target.port as nat) + ",\"startup_path\":"@ + json_string(
            establish.target.startup_path,
        ) + "}"@) + ",\"capacity_handoff\":"@ + (if establish.capacity_handoff {
            "true}"@
        } else {
            "false}"@
        }),
        handshake_length(establish) == encode_utf8(handshake_text(establish)).len(),
{
}

/// The number that a hexadecimal digit stands for.
pub open spec fn hex_value(c: char) -> int {
    if '0' <= c <= '9' {
        c as int - 48
    } else {
        c as int - 87
    }
}

/// The character that a backslash and this one stand for in a JSON string.
pub open spec fn short_escape(c: char) -> char {
    if c == 'b' {
        '\u{8}'
    } else if c == 't' {
        '\t'
    } else if c == 'n' {
        '\n'
    } else if c == 'f' {
        '\u{c}'
    } else if c == 'r' {
        '\r'
    } else {
        c
    }
}

/// The text that the contents of a JSON string stand for.
pub open spec fn json_read(contents: Seq<char>) -> Seq<char>
    decreases contents.len(),
{
    if contents.len() == 0 {
        Seq::empty()
    } else if contents[0] == '\\' && contents.len() >= 6 && contents[1] == 'u' {
        seq![
            (4096 * hex_value(contents[2]) + 256 * hex_value(contents[3]) + 16 * hex_value(contents[4]) + hex_value(
                contents[5],
            )) as char,
        ] + json_read(contents.skip(6))
    } else if contents[0] == '\\' && contents.len() >= 2 {
        seq![short_escape(contents[1])] + json_read(contents.skip(2))
    } else {
        seq![contents[0]] + json_read(contents.skip(1))
    }
}

proof fn escape_reads_back(c: char, rest: Seq<char>)
    ensures
        json_read(json_escape(c) + rest) == seq![c] + json_read(rest),
        forall|i: int|
            0 <= i < json_escape(c).len() ==> {
                &&& 32 <= (#[trigger] json_escape(c)[i]) as int
                &&& json_escape(c)[i] == '"' ==> i > 0 && json_escape(c)[i - 1] == '\\'
            },
{
    let escaped = json_escape(c);
    let whole = escaped + rest;
    assert(whole.skip(escaped.len() as int) =~= rest);
    assert forall|i: int| 0 <= i < escaped.len() implies #[trigger] whole[i] == escaped[i] by {}
    if escaped.len() == 6 {
        let high = c as nat / 16;
        let low = c as nat % 16;
        assert(hex_value(hex_digit(high)) == high);
        assert(hex_value(hex_digit(low)) == low);
        assert(whole[4] == hex_digit(high) && whole[5] == hex_digit(low));
        assert(hex_value('0') == 0);
        assert(16 * high + low == c as nat);
    }
}

/// A JSON string stands between quotes and reads back as its text. Within it no
/// quote stands without a backslash before it, and no character below the space.
pub proof fn strings_read_back(text: Seq<char>)
    ensures
        json_read(json_contents(text)) == text,
        json_string(text) == seq!['"'] + json_contents(text) + seq!['"'],
        forall|i: int|
            0 <= i < json_contents(text).len() ==> {
                &&& 32 <= (#[trigger] json_contents(text)[i]) as int
                &&& json_contents(text)[i] == '"' ==> i > 0 && json_contents(text)[i - 1] == '\\'
            },
    decreases text.len(),
{
    if text.len() > 0 {
        let c = text[0];
        let escaped = json_escape(c);
        let rest = json_contents(text.drop_first());
        strings_read_back(text.drop_first());
        let whole = json_contents(text);
        assert(whole == escaped + rest);
        assert forall|i: int| 0 <= i < escaped.len() implies #[trigger] whole[i] == escaped[i] by {}
        escape_reads_back(c, rest);
        assert(seq![c] + text.drop_first() =~= text);
        assert forall|i: int| 0 <= i < whole.len() implies {
            &&& 32 <= (#[trigger] whole[i]) as int
            &&& whole[i] == '"' ==> i > 0 && whole[i - 1] == '\\'
        } by {
            if i >= escaped.len() {
                assert(whole[i] == rest[i - escaped.len()]);
                if whole[i] == '"' {
                    assert(whole[i - 1] == rest[i - 1 - escaped.len()]);
                }
            }
        }
    }
}

} // verus!
