use vstd::prelude::*;

verus! {

/// The reserved placeholder character a tokenizer surface string uses for a
/// literal space.
pub open spec fn space_placeholder() -> char {
    '\u{2581}'
}

/// A surface character as displayed: the space placeholder becomes a space.
pub open spec fn displayed_char(c: char) -> char {
    if c == space_placeholder() {
        ' '
    } else {
        c
    }
}

/// A whole surface string with placeholders replaced.
pub open spec fn replace_placeholders(s: Seq<char>) -> Seq<char> {
    s.map_values(|c: char| displayed_char(c))
}

pub open spec fn is_hex_digit(c: char) -> bool {
    ('0' <= c && c <= '9') || ('a' <= c && c <= 'f') || ('A' <= c && c <= 'F')
}

pub open spec fn hex_value(c: char) -> int {
    if '0' <= c && c <= '9' {
        c as int - '0' as int
    } else if 'a' <= c && c <= 'f' {
        10 + c as int - 'a' as int
    } else {
        10 + c as int - 'A' as int
    }
}

/// Whether a surface string is the fixed two-hex-digit byte escape wrapped
/// in angle-bracket markers.
pub open spec fn is_byte_escape(s: Seq<char>) -> bool {
    &&& s.len() == 6
    &&& s[0] == '<'
    &&& s[1] == '0'
    &&& s[2] == 'x'
    &&& is_hex_digit(s[3])
    &&& is_hex_digit(s[4])
    &&& s[5] == '>'
}

/// The byte a byte escape encodes.
pub open spec fn escape_byte(s: Seq<char>) -> int {
    16 * hex_value(s[3]) + hex_value(s[4])
}

/// What the host prints for a token's surface string: a byte escape is
/// decoded and emitted only if the byte is in the ASCII range, anything
/// outside it is suppressed silently; every other string is shown with its
/// space placeholders replaced.
pub open spec fn render_spec(s: Seq<char>) -> Option<Seq<char>> {
    if is_byte_escape(s) {
        if escape_byte(s) < 128 {
            Some(seq![((escape_byte(s)) as u8) as char])
        } else {
            None
        }
    } else {
        Some(replace_placeholders(s))
    }
}

fn hex_digit_value(c: char) -> (r: Option<u8>)
    ensures
        r is Some <==> is_hex_digit(c),
        r is Some ==> r->0 as int == hex_value(c) && r->0 < 16,
{
    if '0' <= c && c <= '9' {
        Some((c as u8) - ('0' as u8))
    } else if 'a' <= c && c <= 'f' {
        Some(10 + (c as u8) - ('a' as u8))
    } else if 'A' <= c && c <= 'F' {
        Some(10 + (c as u8) - ('A' as u8))
    } else {
        None
    }
}

/// Renders one token's surface string for streaming display, byte escapes
/// decoded and the reserved space placeholder replaced; `None` means the
/// token is suppressed from display.
pub fn render_token(surface: &Vec<char>) -> (r: Option<Vec<char>>)
    ensures
        match r {
            Some(out) => render_spec(surface@) is Some && out@ == render_spec(surface@)->0,
            None => render_spec(surface@) is None,
        },
{
    if surface.len() == 6 {
        let c0 = surface[0];
        let c1 = surface[1];
        let c2 = surface[2];
        let c5 = surface[5];
        if c0 == '<' && c1 == '0' && c2 == 'x' && c5 == '>' {
            let h = hex_digit_value(surface[3]);
            let l = hex_digit_value(surface[4]);
            if let (Some(hi), Some(lo)) = (h, l) {
                let byte: u8 = 16 * hi + lo;
                assert(byte as int == escape_byte(surface@));
                if byte < 128 {
                    let mut out: Vec<char> = Vec::new();
                    out.push(byte as char);
                    assert(out@ =~= seq![((escape_byte(surface@)) as u8) as char]);
                    return Some(out);
                } else {
                    return None;
                }
            }
        }
    }
    let mut out: Vec<char> = Vec::new();
    let mut i: usize = 0;
    while i < surface.len()
        invariant
            i <= surface@.len(),
            out@.len() == i,
            forall|j: int| 0 <= j < i ==> #[trigger] out@[j] == displayed_char(surface@[j]),
        decreases surface@.len() - i,
    {
        let c = surface[i];
        if c == '\u{2581}' {
            out.push(' ');
        } else {
            out.push(c);
        }
        i += 1;
    }
    assert(out@ =~= replace_placeholders(surface@));
    Some(out)
}

} // verus!
