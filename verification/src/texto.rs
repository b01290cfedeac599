//! Small pieces of text handling that the rest of the library builds on.

use vstd::prelude::*;
use vstd::string::*;

verus! {

/// The value of a decimal digit; `None` for any other character.
pub open spec fn valor_digito(c: char) -> Option<u32> {
    if 48 <= c as u32 <= 57 {
        Some((c as u32 - 48) as u32)
    } else {
        None
    }
}

/// The value of `c` as a decimal digit, or `None` if it is not one.
pub fn digito(c: char) -> (r: Option<u32>)
    ensures
        r == valor_digito(c),
{
    let n = c as u32;
    if 48 <= n && n <= 57 {
        Some(n - 48)
    } else {
        None
    }
}

/// Appends one character to a string.
///
/// Trusted: this is `String::push` of the standard library, which adds the
/// given character at the end of the string and changes nothing else.
#[verifier::external_body]
pub(crate) fn agregar_caracter(s: &mut String, c: char)
    ensures
        final(s)@ == old(s)@.push(c),
{
    s.push(c);
}

/// Whether a character is white space as Unicode defines it: one of the
/// twenty-five characters with the property `White_Space`, which are the
/// tab, the line feed, the vertical tab, the form feed, the carriage return,
/// the space, the next-line character, the no-break space and the spaces,
/// line and paragraph separators beyond them.
pub open spec fn espacio_en_blanco(c: char) -> bool {
    let n = c as u32;
    ||| 0x09 <= n <= 0x0D
    ||| n == 0x20
    ||| n == 0x85
    ||| n == 0xA0
    ||| n == 0x1680
    ||| 0x2000 <= n <= 0x200A
    ||| n == 0x2028
    ||| n == 0x2029
    ||| n == 0x202F
    ||| n == 0x205F
    ||| n == 0x3000
}

/// Whether `c` is white space.
///
/// Trusted: this is `char::is_whitespace` of the standard library, which
/// answers whether the character has the Unicode property `White_Space`;
/// `espacio_en_blanco` lists the characters that have it.
#[verifier::external_body]
pub(crate) fn es_blanco(c: char) -> (b: bool)
    ensures
        b == espacio_en_blanco(c),
{
    c.is_whitespace()
}

/// How many characters of white space a text begins with.
pub open spec fn blancos_al_inicio(s: Seq<char>) -> nat
    decreases s.len(),
{
    if s.len() > 0 && espacio_en_blanco(s[0]) {
        1 + blancos_al_inicio(s.drop_first())
    } else {
        0
    }
}

/// How many characters of white space a text ends with.
pub open spec fn blancos_al_final(s: Seq<char>) -> nat
    decreases s.len(),
{
    if s.len() > 0 && espacio_en_blanco(s.last()) {
        1 + blancos_al_final(s.drop_last())
    } else {
        0
    }
}

/// The text without the white space that it begins and ends with.
pub open spec fn recortada(s: Seq<char>) -> Seq<char> {
    let sin_inicio = s.skip(blancos_al_inicio(s) as int);
    sin_inicio.take(sin_inicio.len() - blancos_al_final(sin_inicio))
}

/// The text without the white space that it begins and ends with.
pub fn recortar(s: &str) -> (r: &str)
    ensures
        r@ == recortada(s@),
{
    let n = s.unicode_len();
    let mut desde: usize = 0;
    proof {
        assert(s@.skip(0) =~= s@);
    }
    while desde < n && es_blanco(s.get_char(desde))
        invariant
            n == s@.len(),
            desde <= n,
            blancos_al_inicio(s@) == desde + blancos_al_inicio(s@.skip(desde as int)),
        decreases n - desde,
    {
        proof {
            assert(s@.skip(desde as int).drop_first() =~= s@.skip(desde + 1));
        }
        desde += 1;
    }
    let ghost sin_inicio = s@.skip(desde as int);
    let mut hasta: usize = n;
    proof {
        assert(sin_inicio.take(n - desde) =~= sin_inicio);
    }
    while hasta > desde && es_blanco(s.get_char(hasta - 1))
        invariant
            n == s@.len(),
            desde <= hasta <= n,
            sin_inicio == s@.skip(desde as int),
            blancos_al_final(sin_inicio) == (n - hasta) + blancos_al_final(
                sin_inicio.take(hasta - desde),
            ),
        decreases hasta,
    {
        proof {
            assert(sin_inicio.take(hasta - desde).drop_last() =~= sin_inicio.take(
                hasta - desde - 1,
            ));
        }
        hasta -= 1;
    }
    proof {
        assert(sin_inicio.take(hasta - desde) =~= s@.subrange(desde as int, hasta as int));
    }
    s.substring_char(desde, hasta)
}

/// How many characters the text has before its first space.
pub open spec fn largo_palabra(s: Seq<char>) -> nat
    decreases s.len(),
{
    if s.len() == 0 || s[0] == ' ' {
        0
    } else {
        1 + largo_palabra(s.drop_first())
    }
}

/// The first word of a text is no longer than the text.
pub proof fn lema_largo_palabra(s: Seq<char>)
    ensures
        largo_palabra(s) <= s.len(),
        s.len() > 0 && s[0] != ' ' ==> largo_palabra(s) >= 1,
    decreases s.len(),
{
    if s.len() > 0 {
        lema_largo_palabra(s.drop_first());
    }
}

/// The words of a text: its longest runs of characters other than the
/// space, first to last.
pub open spec fn palabras(s: Seq<char>) -> Seq<Seq<char>>
    decreases s.len(),
{
    if s.len() == 0 {
        Seq::empty()
    } else if s[0] == ' ' {
        palabras(s.drop_first())
    } else {
        proof {
            lema_largo_palabra(s);
        }
        let n = largo_palabra(s) as int;
        seq![s.take(n)] + palabras(s.skip(n))
    }
}

/// What each of some texts holds.
pub open spec fn contenidos(v: Seq<&str>) -> Seq<Seq<char>> {
    Seq::new(v.len(), |i: int| v[i]@)
}

/// The words of `s`, each a slice of it.
pub fn palabras_de<'a>(s: &'a str) -> (r: Vec<&'a str>)
    ensures
        contenidos(r@) == palabras(s@),
{
    let n = s.unicode_len();
    let mut r: Vec<&'a str> = Vec::new();
    let mut i: usize = 0;
    proof {
        assert(s@.skip(0) =~= s@);
        assert(contenidos(r@) + palabras(s@) =~= palabras(s@));
    }
    while i < n
        invariant
            n == s@.len(),
            i <= n,
            palabras(s@) == contenidos(r@) + palabras(s@.skip(i as int)),
        decreases n - i,
    {
        let ghost cola = s@.skip(i as int);
        if s.get_char(i) == ' ' {
            proof {
                assert(cola.drop_first() =~= s@.skip(i + 1));
            }
            i += 1;
        } else {
            let mut j: usize = i + 1;
            proof {
                assert(cola.drop_first() =~= s@.skip(i + 1));
            }
            while j < n && s.get_char(j) != ' '
                invariant
                    n == s@.len(),
                    i < j <= n,
                    largo_palabra(s@.skip(i as int)) == (j - i) + largo_palabra(s@.skip(j as int)),
                decreases n - j,
            {
                proof {
                    assert(s@.skip(j as int).drop_first() =~= s@.skip(j + 1));
                }
                j += 1;
            }
            let palabra = s.substring_char(i, j);
            let ghost antes = r@;
            r.push(palabra);
            proof {
                assert(cola.take(j - i) =~= s@.subrange(i as int, j as int));
                assert(cola.skip(j - i) =~= s@.skip(j as int));
                assert(contenidos(r@) =~= contenidos(antes).push(palabra@));
                assert(contenidos(antes) + (seq![palabra@] + palabras(s@.skip(j as int)))
                    =~= contenidos(antes).push(palabra@) + palabras(s@.skip(j as int)));
            }
            i = j;
        }
    }
    proof {
        assert(contenidos(r@) + palabras(s@.skip(i as int)) =~= contenidos(r@));
    }
    r
}

/// The character that stands for the digit `d`.
pub open spec fn cifra(d: nat) -> char
    recommends
        d < 10,
{
    if d == 0 {
        '0'
    } else if d == 1 {
        '1'
    } else if d == 2 {
        '2'
    } else if d == 3 {
        '3'
    } else if d == 4 {
        '4'
    } else if d == 5 {
        '5'
    } else if d == 6 {
        '6'
    } else if d == 7 {
        '7'
    } else if d == 8 {
        '8'
    } else {
        '9'
    }
}

/// A number written in decimal digits, without leading zeros.
pub open spec fn decimal(n: nat) -> Seq<char>
    decreases n,
{
    if n < 10 {
        seq![cifra(n)]
    } else {
        decimal(n / 10).push(cifra(n % 10))
    }
}

/// The character that stands for the digit `d`.
fn cifra_de(d: u32) -> (c: char)
    requires
        d < 10,
    ensures
        c == cifra(d as nat),
        valor_digito(c) == Some(d),
{
    if d == 0 {
        '0'
    } else if d == 1 {
        '1'
    } else if d == 2 {
        '2'
    } else if d == 3 {
        '3'
    } else if d == 4 {
        '4'
    } else if d == 5 {
        '5'
    } else if d == 6 {
        '6'
    } else if d == 7 {
        '7'
    } else if d == 8 {
        '8'
    } else {
        '9'
    }
}

/// Adds `n`, written in decimal digits, at the end of `s`.
pub fn agregar_decimal(s: &mut String, n: u32)
    ensures
        final(s)@ == old(s)@ + decimal(n as nat),
    decreases n,
{
    if n < 10 {
        agregar_caracter(s, cifra_de(n));
        assert(old(s)@.push(cifra(n as nat)) =~= old(s)@ + decimal(n as nat));
    } else {
        agregar_decimal(s, n / 10);
        agregar_caracter(s, cifra_de(n % 10));
        assert((old(s)@ + decimal((n / 10) as nat)).push(cifra((n % 10) as nat)) =~= old(s)@
            + decimal(n as nat));
    }
}

/// Every character of the text is a decimal digit.
pub open spec fn solo_digitos(s: Seq<char>) -> bool {
    forall|i: int| 0 <= i < s.len() ==> valor_digito(#[trigger] s[i]) is Some
}

/// The number that a text of decimal digits stands for.
pub open spec fn valor_decimal(s: Seq<char>) -> nat
    recommends
        solo_digitos(s),
    decreases s.len(),
{
    if s.len() == 0 {
        0
    } else {
        10 * valor_decimal(s.drop_last()) + valor_digito(s.last()).unwrap() as nat
    }
}

/// The digits of a number written with or without a `+` before it.
pub open spec fn sin_signo(s: Seq<char>) -> Seq<char> {
    if s.len() > 0 && s[0] == '+' {
        s.drop_first()
    } else {
        s
    }
}

/// The text is a number that a `usize` can hold: one or more decimal
/// digits, with or without a `+` before them and with nothing else before,
/// between or after them.
pub open spec fn es_numero(s: Seq<char>) -> bool {
    &&& sin_signo(s).len() > 0
    &&& solo_digitos(sin_signo(s))
    &&& valor_decimal(sin_signo(s)) <= usize::MAX
}

/// The words in which the standard library says why a text is no number
/// that a `usize` can hold.
pub uninterp spec fn motivo_de_rechazo(s: Seq<char>) -> Seq<char>;

/// Reads a `usize` written in decimal digits.
///
/// Trusted: this is `str::parse::<usize>` of the standard library. It
/// accepts one or more decimal digits with or without a `+` before them,
/// whose value a `usize` can hold, and gives that value; it refuses every
/// other text, the empty one too, with an error whose message depends on
/// the text alone and is what `motivo_de_rechazo` names.
#[verifier::external_body]
pub(crate) fn leer_numero(s: &str) -> (r: Result<usize, String>)
    ensures
        r is Ok <==> es_numero(s@),
        r matches Ok(n) ==> n == valor_decimal(sin_signo(s@)),
        r matches Err(e) ==> e@ == motivo_de_rechazo(s@),
{
    match s.parse::<usize>() {
        Ok(n) => Ok(n),
        Err(e) => Err(e.to_string()),
    }
}

} // verus!
