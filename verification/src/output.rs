//! The picture as plain text: the header and the pixel lines of a PPM file.
use vstd::prelude::*;

verus! {

/// The character of a decimal digit.
pub open spec fn digit_byte(d: nat) -> u8 {
    (48 + d) as u8
}

/// The decimal digits of a number, most significant first, as characters.
pub open spec fn decimal(n: nat) -> Seq<u8>
    decreases n,
{
    if n < 10 {
        seq![digit_byte(n)]
    } else {
        decimal(n / 10).push(digit_byte(n % 10))
    }
}

/// A line of three numbers between blanks, without its end.
pub open spec fn triple(r: nat, g: nat, b: nat) -> Seq<u8> {
    decimal(r) + seq![32u8] + decimal(g) + seq![32u8] + decimal(b)
}

/// The header of a picture: the line that names the format, plain PPM, the
/// line of width and height, and the line `255` for the largest value of a
/// channel.
pub open spec fn header_text(width: nat, height: nat) -> Seq<u8> {
    seq![80u8, 51u8, 10u8] + decimal(width) + seq![32u8] + decimal(height) + seq![10u8] + decimal(
        255,
    ) + seq![10u8]
}

/// Appends the decimal digits of a number to a text.
pub fn push_decimal(text: &mut Vec<u8>, n: usize)
    ensures
        final(text)@ == old(text)@ + decimal(n as nat),
{
    let mut digits: Vec<u8> = Vec::new();
    let mut rest: usize = n;
    let ghost before = text@;
    // The digits come out least significant first.
    loop
        invariant_except_break
            decimal(n as nat) == decimal(rest as nat) + digits@.reverse(),
        invariant
            text@ == before,
            rest <= n,
        ensures
            decimal(n as nat) == digits@.reverse(),
        decreases rest,
    {
        let d: u8 = (rest % 10) as u8;
        proof {
            let shown = digits@.reverse();
            let more = digits@.push((48 + d) as u8).reverse();
            assert(more =~= seq![(48 + d) as u8] + shown);
            if rest >= 10 {
                assert(decimal(rest as nat) == decimal((rest / 10) as nat).push(
                    digit_byte((rest % 10) as nat),
                ));
                assert(decimal(rest as nat) + shown =~= decimal((rest / 10) as nat) + more);
            } else {
                assert(decimal(rest as nat) + shown =~= more);
            }
        }
        digits.push(48 + d);
        if rest < 10 {
            break ;
        }
        rest = rest / 10;
    }
    let mut i: usize = digits.len();
    while i > 0
        invariant
            i <= digits@.len(),
            text@ == before + digits@.reverse().take(digits@.len() - i),
        decreases i,
    {
        i -= 1;
        text.push(digits[i]);
        proof {
            let r = digits@.reverse();
            let k = digits@.len() - i - 1;
            assert(r[k] == digits@[i as int]);
            assert(r.take(k + 1) =~= r.take(k).push(r[k]));
            assert(text@ =~= before + r.take(k + 1));
        }
    }
    proof {
        assert(digits@.reverse().take(digits@.len() as int) =~= digits@.reverse());
    }
}

/// The header of a picture of the given size.
pub fn ppm_header(width: usize, height: usize) -> (text: Vec<u8>)
    ensures
        text@ == header_text(width as nat, height as nat),
{
    let mut text: Vec<u8> = Vec::new();
    text.push(80);
    text.push(51);
    text.push(10);
    push_decimal(&mut text, width);
    text.push(32);
    push_decimal(&mut text, height);
    text.push(10);
    push_decimal(&mut text, 255);
    text.push(10);
    proof {
        assert(text@ =~= header_text(width as nat, height as nat));
    }
    text
}

/// One pixel as it is written: each channel from 0 to 255.
#[derive(Clone, Copy, Debug, PartialEq, Eq, Structural)]
pub struct Rgb {
    pub r: u8,
    pub g: u8,
    pub b: u8,
}

/// The lines of a row of pixels, from left to right, each with its end.
pub open spec fn row_text(row: Seq<Rgb>) -> Seq<u8>
    decreases row.len(),
{
    if row.len() == 0 {
        Seq::empty()
    } else {
        row_text(row.drop_last()) + triple(
            row.last().r as nat,
            row.last().g as nat,
            row.last().b as nat,
        ) + seq![10u8]
    }
}

/// The lines of the rows of a picture, from the top row down.
pub open spec fn body_text(rows: Seq<Vec<Rgb>>) -> Seq<u8>
    decreases rows.len(),
{
    if rows.len() == 0 {
        Seq::empty()
    } else {
        body_text(rows.drop_last()) + row_text(rows.last()@)
    }
}

/// Whether every row has `width` pixels.
pub open spec fn is_rectangular(rows: Seq<Vec<Rgb>>, width: nat) -> bool {
    forall|j: int| 0 <= j < rows.len() ==> (#[trigger] rows[j])@.len() == width
}

/// The whole picture as text: the header, then one line for each pixel, the
/// rows from top to bottom and each row from left to right. The height is the
/// number of rows. There is no picture unless every row has `width` pixels.
pub fn ppm_image(width: usize, rows: &Vec<Vec<Rgb>>) -> (text: Option<Vec<u8>>)
    ensures
        text is Some <==> is_rectangular(rows@, width as nat),
        text matches Some(t) ==> t@ == header_text(width as nat, rows@.len()) + body_text(rows@),
{
    let mut text: Vec<u8> = ppm_header(width, rows.len());
    let ghost head = text@;
    let mut j: usize = 0;
    while j < rows.len()
        invariant
            j <= rows@.len(),
            is_rectangular(rows@.take(j as int), width as nat),
            text@ == head + body_text(rows@.take(j as int)),
        decreases rows@.len() - j,
    {
        let row = &rows[j];
        if row.len() != width {
            return None;
        }
        let ghost before = text@;
        let mut i: usize = 0;
        while i < row.len()
            invariant
                i <= row@.len(),
                text@ == before + row_text(row@.take(i as int)),
            decreases row@.len() - i,
        {
            let ghost so_far = text@;
            let p = row[i];
            push_decimal(&mut text, p.r as usize);
            text.push(32);
            push_decimal(&mut text, p.g as usize);
            text.push(32);
            push_decimal(&mut text, p.b as usize);
            text.push(10);
            proof {
                let upto = row@.take(i as int + 1);
                assert(upto.drop_last() =~= row@.take(i as int));
                assert(upto.last() == p);
                assert(text@ =~= so_far + triple(p.r as nat, p.g as nat, p.b as nat) + seq![10u8]);
                assert(text@ =~= before + row_text(upto));
            }
            i += 1;
        }
        proof {
            assert(row@.take(i as int) =~= row@);
            let upto = rows@.take(j as int + 1);
            assert(upto.drop_last() =~= rows@.take(j as int));
            assert(upto.last() == rows@[j as int]);
            assert(text@ =~= head + body_text(upto));
            assert forall|k: int| 0 <= k < upto.len() implies (#[trigger] upto[k])@.len()
                == width by {
                if k < j {
                    assert(rows@.take(j as int)[k] == upto[k]);
                }
            }
        }
        j += 1;
    }
    proof {
        assert(rows@.take(j as int) =~= rows@);
    }
    Some(text)
}

/// The line of one pixel, without its end: red, green and blue between blanks.
pub fn ppm_pixel(r: u8, g: u8, b: u8) -> (text: Vec<u8>)
    ensures
        text@ == triple(r as nat, g as nat, b as nat),
{
    let mut text: Vec<u8> = Vec::new();
    push_decimal(&mut text, r as usize);
    text.push(32);
    push_decimal(&mut text, g as usize);
    text.push(32);
    push_decimal(&mut text, b as usize);
    proof {
        assert(text@ =~= triple(r as nat, g as nat, b as nat));
    }
    text
}

/// The number that a text of decimal digits stands for.
pub open spec fn number_of(digits: Seq<u8>) -> nat
    decreases digits.len(),
{
    if digits.len() == 0 {
        0
    } else {
        (number_of(digits.drop_last()) * 10 + (digits.last() - 48)) as nat
    }
}

/// The digits of a number are digits, begin with a zero only for zero itself,
/// and read back as the number.
pub proof fn lemma_decimal_reads_back(n: nat)
    ensures
        decimal(n).len() >= 1,
        forall|i: int| 0 <= i < decimal(n).len() ==> 48 <= #[trigger] decimal(n)[i] <= 57,
        n > 0 ==> decimal(n)[0] != 48,
        number_of(decimal(n)) == n,
    decreases n,
{
    if n < 10 {
        assert(decimal(n).drop_last() =~= Seq::<u8>::empty());
        assert(number_of(decimal(n).drop_last()) == 0);
    } else {
        lemma_decimal_reads_back(n / 10);
        let head = decimal(n / 10);
        assert(decimal(n).drop_last() =~= head);
        assert(decimal(n)[0] == head[0]);
        assert forall|i: int| 0 <= i < decimal(n).len() implies 48 <= #[trigger] decimal(n)[i]
            <= 57 by {
            if i < head.len() {
                assert(decimal(n)[i] == head[i]);
            }
        }
    }
}

} // verus!
