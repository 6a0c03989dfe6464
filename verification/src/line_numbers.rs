//! The line-number gutter: parsing a gutter template around its one number
//! placeholder, and rendering a line number as fixed-width column text.

use vstd::prelude::*;

use crate::chars::{chars_of, chars_range_string, string_of_chars};
use crate::error::PaintError;

verus! {

/// Whether the number placeholder stands at position `i` of a template.
pub open spec fn placeholder_at(s: Seq<char>, i: int) -> bool {
    &&& 0 <= i
    &&& i + 3 <= s.len()
    &&& s[i] == '%'
    &&& s[i + 1] == 'l'
    &&& s[i + 2] == 'n'
}

/// A gutter template is well formed when it holds the placeholder exactly
/// once: parsing fails on a template that misses it or repeats it.
pub open spec fn template_well_formed(s: Seq<char>) -> bool {
    &&& exists|i: int| placeholder_at(s, i)
    &&& forall|i: int, j: int|
        placeholder_at(s, i) && placeholder_at(s, j) ==> i == j
}

/// Splits a gutter template at its one number placeholder into the literal
/// text before it and the literal text after it. A template without the
/// placeholder, or with more than one, is a configuration error that the
/// caller must surface.
pub fn parse_line_number_format(number_format: &str) -> (r: Result<(String, String), PaintError>)
    ensures
        (r is Ok) <==> template_well_formed(number_format@),
        r matches Ok(parts) ==> exists|i: int|
            #[trigger] placeholder_at(number_format@, i) && parts.0@ == number_format@.subrange(
                0,
                i,
            ) && parts.1@ == number_format@.subrange(i + 3, number_format@.len() as int),
        r matches Err(e) ==> e matches PaintError::InvalidLineNumberFormat { format }
            && format@ == number_format@,
{
    let chars = chars_of(number_format);
    let n = chars.len();
    if n < 3 {
        proof {
            assert(forall|i: int| !placeholder_at(number_format@, i));
        }
        return Err(PaintError::InvalidLineNumberFormat { format: number_format.to_owned() });
    }
    let mut found: Option<usize> = None;
    let mut duplicate: bool = false;
    let mut i: usize = 0;
    while i <= n - 3
        invariant
            n == number_format@.len(),
            chars@ == number_format@,
            3 <= n,
            i <= n - 2,
            found is None ==> forall|j: int| 0 <= j < i ==> !placeholder_at(number_format@, j),
            found matches Some(f) ==> placeholder_at(number_format@, f as int) && (f as int) < i
                && (forall|j: int| 0 <= j < f ==> !placeholder_at(number_format@, j)),
            duplicate ==> found is Some,
            !duplicate ==> (found matches Some(f) ==> forall|j: int|
                f < j < i ==> !placeholder_at(number_format@, j)),
            duplicate ==> exists|j1: int, j2: int|
                j1 != j2 && placeholder_at(number_format@, j1) && placeholder_at(
                    number_format@,
                    j2,
                ),
        decreases n - i,
    {
        let here = chars[i] == '%' && chars[i + 1] == 'l' && chars[i + 2] == 'n';
        if here {
            match found {
                None => {
                    found = Some(i);
                },
                Some(f) => {
                    duplicate = true;
                    proof {
                        assert(placeholder_at(number_format@, f as int));
                        assert(placeholder_at(number_format@, i as int));
                        assert(f as int != i as int);
                        assert(exists|j1: int, j2: int|
                            j1 != j2 && placeholder_at(number_format@, j1) && placeholder_at(
                                number_format@,
                                j2,
                            ));
                    }
                },
            }
        }
        i += 1;
    }
    proof {
        assert(forall|j: int|
            placeholder_at(number_format@, j) ==> 0 <= j <= number_format@.len() - 3);
    }
    match found {
        None => {
            proof {
                assert(forall|j: int| !placeholder_at(number_format@, j));
            }
            Err(PaintError::InvalidLineNumberFormat { format: number_format.to_owned() })
        },
        Some(f) => {
            if duplicate {
                proof {
                    assert(!template_well_formed(number_format@));
                }
                Err(PaintError::InvalidLineNumberFormat { format: number_format.to_owned() })
            } else {
                let before = chars_range_string(&chars, 0, f);
                let after = chars_range_string(&chars, f + 3, n);
                proof {
                    assert forall|j1: int, j2: int|
                        placeholder_at(number_format@, j1) && placeholder_at(
                            number_format@,
                            j2,
                        ) implies j1 == j2 by {
                        assert(j1 == f as int);
                        assert(j2 == f as int);
                    }
                    assert(placeholder_at(number_format@, f as int));
                }
                Ok((before, after))
            }
        },
    }
}

/// The digit character for one decimal digit.
pub open spec fn digit_char(d: nat) -> char {
    if d == 0 {
        '0'
    } else if d == 1 {
        '1'
    } else if d == 2 {
        '2'
    } else if d == 3 {
        '3'
    } else if d == 4 {
        '4'
    } else if d == 5 {
        '5'
    } else if d == 6 {
        '6'
    } else if d == 7 {
        '7'
    } else if d == 8 {
        '8'
    } else {
        '9'
    }
}

/// The decimal notation of a number, most significant digit first.
pub open spec fn spec_decimal(n: nat) -> Seq<char>
    decreases n,
{
    if n < 10 {
        seq![digit_char(n)]
    } else {
        spec_decimal(n / 10).push(digit_char(n % 10))
    }
}

fn exec_digit_char(d: usize) -> (c: char)
    requires
        d < 10,
    ensures
        c == digit_char(d as nat),
{
    if d == 0 {
        '0'
    } else if d == 1 {
        '1'
    } else if d == 2 {
        '2'
    } else if d == 3 {
        '3'
    } else if d == 4 {
        '4'
    } else if d == 5 {
        '5'
    } else if d == 6 {
        '6'
    } else if d == 7 {
        '7'
    } else if d == 8 {
        '8'
    } else {
        '9'
    }
}

fn decimal_chars(n: usize) -> (v: Vec<char>)
    ensures
        v@ == spec_decimal(n as nat),
    decreases n,
{
    if n < 10 {
        let mut v: Vec<char> = Vec::new();
        v.push(exec_digit_char(n));
        proof {
            assert(v@ =~= seq![digit_char(n as nat)]);
        }
        v
    } else {
        let mut v = decimal_chars(n / 10);
        v.push(exec_digit_char(n % 10));
        v
    }
}

/// A run of blank characters.
pub open spec fn spaces(n: nat) -> Seq<char> {
    Seq::new(n, |i: int| ' ')
}

/// Text centered in the fixed gutter column width: padded with blanks on
/// both sides, the extra blank (if any) on the right; text at least as wide
/// as the column passes through unchanged.
pub open spec fn center4(s: Seq<char>) -> Seq<char> {
    if s.len() >= 4 {
        s
    } else {
        let left = ((4 - s.len()) / 2) as nat;
        spaces(left) + s + spaces((4 - s.len() - left) as nat)
    }
}

/// What the number cell of a gutter holds: the number centered in the fixed
/// column width, or a fully blank cell when the line has no number on that
/// side (keeping column alignment).
pub open spec fn spec_format_line_number(line_number: Option<usize>) -> Seq<char> {
    match line_number {
        Some(x) => center4(spec_decimal(x as nat)),
        None => spaces(4),
    }
}

/// Renders the number cell of a gutter.
pub fn format_line_number(line_number: Option<usize>) -> (s: String)
    ensures
        s@ == spec_format_line_number(line_number),
{
    match line_number {
        Some(x) => {
            let digits = decimal_chars(x);
            let len = digits.len();
            if len >= 4 {
                string_of_chars(&digits)
            } else {
                let left = (4 - len) / 2;
                let right = 4 - len - left;
                let mut padded: Vec<char> = Vec::new();
                let mut i: usize = 0;
                while i < left
                    invariant
                        i <= left,
                        padded@ =~= spaces(i as nat),
                    decreases left - i,
                {
                    padded.push(' ');
                    proof {
                        assert(padded@ =~= spaces(i as nat + 1));
                    }
                    i += 1;
                }
                let mut k: usize = 0;
                while k < len
                    invariant
                        k <= len,
                        len == digits@.len(),
                        padded@ =~= spaces(left as nat) + digits@.subrange(0, k as int),
                    decreases len - k,
                {
                    padded.push(digits[k]);
                    proof {
                        assert(padded@ =~= spaces(left as nat) + digits@.subrange(
                            0,
                            k as int + 1,
                        ));
                    }
                    k += 1;
                }
                let mut j: usize = 0;
                while j < right
                    invariant
                        j <= right,
                        len == digits@.len(),
                        padded@ =~= spaces(left as nat) + digits@ + spaces(j as nat),
                    decreases right - j,
                {
                    padded.push(' ');
                    proof {
                        assert(padded@ =~= spaces(left as nat) + digits@ + spaces(j as nat + 1));
                    }
                    j += 1;
                }
                proof {
                    assert(padded@ =~= center4(digits@));
                }
                string_of_chars(&padded)
            }
        },
        None => {
            let mut blanks: Vec<char> = Vec::new();
            blanks.push(' ');
            blanks.push(' ');
            blanks.push(' ');
            blanks.push(' ');
            proof {
                assert(blanks@ =~= spaces(4));
            }
            string_of_chars(&blanks)
        },
    }
}

/// Splits a gutter template around its placeholder and renders the number
/// cell: the literal text before, the fixed-width number text, and the
/// literal text after, to be styled independently by the caller.
pub fn get_line_number_components(number: Option<usize>, number_format: &str) -> (r: Result<
    (String, String, String),
    PaintError,
>)
    ensures
        (r is Ok) <==> template_well_formed(number_format@),
        r matches Ok(parts) ==> exists|i: int|
            #[trigger] placeholder_at(number_format@, i) && parts.0@ == number_format@.subrange(
                0,
                i,
            ) && parts.1@ == spec_format_line_number(number) && parts.2@
                == number_format@.subrange(i + 3, number_format@.len() as int),
        r matches Err(e) ==> e matches PaintError::InvalidLineNumberFormat { format }
            && format@ == number_format@,
{
    match parse_line_number_format(number_format) {
        Ok((before, after)) => Ok((before, format_line_number(number), after)),
        Err(e) => Err(e),
    }
}

/// Whether a line has a number on at least one side; a line that has none
/// renders no gutter at all.
pub fn has_line_numbers(line_numbers: &(Option<usize>, Option<usize>)) -> (r: bool)
    ensures
        r == (line_numbers.0 is Some || line_numbers.1 is Some),
{
    let (minus, plus) = line_numbers;
    match minus {
        Some(_) => true,
        None => match plus {
            Some(_) => true,
            None => false,
        },
    }
}

/// Gutter round trip: render the three gutter pieces into one string, then
/// cut that string at the positions the template's placeholder dictates.
/// The literal text before and after the number, and the number cell
/// itself, come back unchanged — whatever the number text was.
pub proof fn lemma_gutter_round_trip(template: Seq<char>, i: int, number_text: Seq<char>)
    requires
        placeholder_at(template, i),
    ensures
        ({
            let before = template.subrange(0, i);
            let after = template.subrange(i + 3, template.len() as int);
            let rendered = before + number_text + after;
            &&& rendered.subrange(0, i) == before
            &&& rendered.subrange(i, i + number_text.len()) == number_text
            &&& rendered.subrange(i + number_text.len(), rendered.len() as int) == after
        }),
{
    let before = template.subrange(0, i);
    let after = template.subrange(i + 3, template.len() as int);
    let rendered = before + number_text + after;
    assert(rendered.subrange(0, i) =~= before);
    assert(rendered.subrange(i, i + number_text.len()) =~= number_text);
    assert(rendered.subrange(i + number_text.len(), rendered.len() as int) =~= after);
}

} // verus!
