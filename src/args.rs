use vstd::prelude::*;

verus! {

broadcast use vstd::string::to_string_from_display_ensures_for_str;

pub open spec fn is_digit(c: char) -> bool {
    '0' <= c && c <= '9'
}

/// The value of a string of decimal digits.
pub open spec fn digits_value(s: Seq<char>) -> nat
    decreases s.len(),
{
    if s.len() == 0 {
        0
    } else {
        digits_value(s.drop_last()) * 10 + (s.last() as nat - '0' as nat) as nat
    }
}

/// What reading `s` as an unsigned 32-bit decimal number gives: an optional `+`,
/// then one or more digits, of a value that fits.
pub open spec fn u32_of_text(s: Seq<char>) -> Option<u32> {
    let digits = if s.len() > 0 && s[0] == '+' {
        s.drop_first()
    } else {
        s
    };
    if digits.len() == 0 || exists|i: int| 0 <= i < digits.len() && !is_digit(digits[i]) {
        None
    } else if digits_value(digits) > u32::MAX {
        None
    } else {
        Some(digits_value(digits) as u32)
    }
}

/// Relies on `str::parse::<u32>`, which accepts exactly an optional `+` followed by
/// decimal digits whose value fits in a `u32`.
#[verifier::external_body]
fn parse_u32(s: &str) -> (r: Option<u32>)
    ensures
        r == u32_of_text(s@),
{
    s.parse::<u32>().ok()
}

/// The pieces of `s` between commas, in order; there is one more piece than commas.
pub open spec fn comma_pieces(s: Seq<char>) -> Seq<Seq<char>>
    decreases s.len(),
{
    if s.len() == 0 {
        seq![Seq::empty()]
    } else {
        let rest = comma_pieces(s.drop_last());
        if s.last() == ',' {
            rest.push(Seq::empty())
        } else {
            rest.update(rest.len() - 1, rest.last().push(s.last()))
        }
    }
}

/// What `str::trim` leaves of a string.
pub uninterp spec fn trimmed(s: Seq<char>) -> Seq<char>;

/// Relies on `str::split` with a `char` pattern: the pieces between the commas.
#[verifier::external_body]
fn split_commas(s: &str) -> (r: Vec<&str>)
    ensures
        r@.len() == comma_pieces(s@).len(),
        forall|i: int| 0 <= i < r@.len() ==> (#[trigger] r@[i])@ == comma_pieces(s@)[i],
{
    s.split(',').collect()
}

/// Relies on `str::trim`: `s` without leading and trailing white space.
#[verifier::external_body]
fn trim(s: &str) -> (r: String)
    ensures
        r@ == trimmed(s@),
{
    s.trim().to_string()
}

/// Reads a resolution in dots per inch, between 10 and 4000.
pub fn parse_dpi(s: &str) -> (r: Result<u32, String>)
    ensures
        u32_of_text(s@) is None ==> (r matches Err(e) && e@ == "invalid number"@),
        u32_of_text(s@) matches Some(n) ==> if 10 <= n <= 4000 {
            r == Ok::<u32, String>(n)
        } else {
            (r matches Err(e) && e@ == "DPI out of bounds"@)
        },
{
    let n = match parse_u32(s) {
        Some(n) => n,
        None => return Err("invalid number".to_string()),
    };
    if n >= 10 && n <= 4000 {
        Ok(n)
    } else {
        Err("DPI out of bounds".to_string())
    }
}

/// Reads a font size, between 1 and 192.
pub fn parse_font_size(s: &str) -> (r: Result<u32, String>)
    ensures
        u32_of_text(s@) is None ==> (r matches Err(e) && e@ == "invalid number"@),
        u32_of_text(s@) matches Some(n) ==> if 0 < n <= 192 {
            r == Ok::<u32, String>(n)
        } else {
            (r matches Err(e) && e@ == "font size out of bounds"@)
        },
{
    let n = match parse_u32(s) {
        Some(n) => n,
        None => return Err("invalid number".to_string()),
    };
    if n > 0 && n <= 192 {
        Ok(n)
    } else {
        Err("font size out of bounds".to_string())
    }
}

proof fn lemma_comma_pieces_nonempty(s: Seq<char>)
    ensures
        comma_pieces(s).len() >= 1,
    decreases s.len(),
{
    if s.len() > 0 {
        lemma_comma_pieces_nonempty(s.drop_last());
    }
}

/// Reads a comma-separated list of languages, each trimmed of white space. The
/// list always has one entry more than `s` has commas.
pub fn parse_languages(s: &str) -> (r: Result<Vec<String>, String>)
    ensures
        r matches Ok(langs) && langs@.len() == comma_pieces(s@).len() && forall|i: int|
            0 <= i < langs@.len() ==> (#[trigger] langs@[i])@ == trimmed(comma_pieces(s@)[i]),
{
    let pieces = split_commas(s);
    let mut langs: Vec<String> = Vec::new();
    let mut i: usize = 0;
    while i < pieces.len()
        invariant
            0 <= i <= pieces.len(),
            pieces@.len() == comma_pieces(s@).len(),
            forall|j: int| 0 <= j < pieces@.len() ==> (#[trigger] pieces@[j])@ == comma_pieces(s@)[j],
            langs@.len() == i,
            forall|j: int| 0 <= j < i ==> (#[trigger] langs@[j])@ == trimmed(comma_pieces(s@)[j]),
        decreases pieces.len() - i,
    {
        langs.push(trim(pieces[i]));
        i = i + 1;
    }
    proof {
        lemma_comma_pieces_nonempty(s@);
    }
    if langs.len() == 0 {
        return Err("languages list cannot be empty".to_string());
    }
    Ok(langs)
}

} // verus!
