use vstd::prelude::*;
use vstd::string::*;
use super::bomba::Bomba;
use super::desvio::Desvio;
use super::direccion::Direccion;
use super::enemigo::{Enemigo, EnemigoModelo};
use super::obstaculo::Obstaculo;
use super::tile::{Casilla, Tile};
use crate::texto::{agregar_caracter, digito, valor_digito};

verus! {

/// The character at position `i` of a text, if it is that long.
pub open spec fn caracter(s: Seq<char>, i: int) -> Option<char> {
    if 0 <= i < s.len() {
        Some(s[i])
    } else {
        None
    }
}

/// The number that the character after the kind of a piece stands for.
pub open spec fn numero(segundo: Option<char>) -> Option<u32> {
    match segundo {
        Some(c) => valor_digito(c),
        None => None,
    }
}

/// The enemy written as `F`, alone or with a digit. Alone it stands for an
/// enemy with one point of health; with a digit, for an enemy with that
/// health, which must not be zero. Anything but a digit after the `F` is
/// refused.
pub open spec fn enemigo_de(x: usize, y: usize, segundo: Option<char>) -> Result<
    Casilla,
    Seq<char>,
> {
    match segundo {
        None => Ok(Casilla::Enemigo(EnemigoModelo { x, y, vida: 1, impactos: Set::empty() })),
        Some(c) => match valor_digito(c) {
            Some(vida) => if vida > 0 {
                Ok(Casilla::Enemigo(EnemigoModelo { x, y, vida, impactos: Set::empty() }))
            } else {
                Err("Un enemigo no puede tener vida negativa: F0"@)
            },
            None => Err("Los enemigos deben tener vida"@),
        },
    }
}

/// The bomb written as `B` or `S` and a digit: its radius must be a digit
/// other than zero.
pub open spec fn bomba_de(x: usize, y: usize, especial: bool, segundo: Option<char>) -> Result<
    Casilla,
    Seq<char>,
> {
    match numero(segundo) {
        Some(radio) => if radio > 0 {
            if especial {
                Ok(Casilla::BombaEspecial(Bomba { x, y, radio, especial }))
            } else {
                Ok(Casilla::BombaNormal(Bomba { x, y, radio, especial }))
            }
        } else {
            Err("Una bomba no puede tener radio negativo: B0"@)
        },
        None => Err("Una bomba debe tener radio, B"@),
    }
}

/// The direction that a letter stands for: `U`, `D`, `L` or `R`.
pub open spec fn direccion_de(c: char) -> Option<Direccion> {
    if c == 'U' {
        Some(Direccion::Arriba)
    } else if c == 'D' {
        Some(Direccion::Abajo)
    } else if c == 'L' {
        Some(Direccion::Izquierda)
    } else if c == 'R' {
        Some(Direccion::Derecha)
    } else {
        None
    }
}

/// The deflector written as `D` and the letter of a direction.
pub open spec fn desvio_de(x: usize, y: usize, segundo: Option<char>) -> Result<
    Casilla,
    Seq<char>,
> {
    match segundo {
        None => Err("Un desvio debe tener direccion, D"@),
        Some(c) => match direccion_de(c) {
            Some(direccion) => Ok(Casilla::Desvio(Desvio { x, y, direccion })),
            None => Err("Direccion invalida: D"@.push(c)),
        },
    }
}

/// The piece that the text `s` stands for, placed at `(x, y)`, or why the
/// text stands for none. The first character gives the kind of the piece
/// and the second, where the kind needs one, its number or direction; what
/// follows them is not looked at.
pub open spec fn pieza(s: Seq<char>, x: usize, y: usize) -> Result<Casilla, Seq<char>> {
    let segundo = caracter(s, 1);
    match caracter(s, 0) {
        Some(c) => if c == 'F' {
            enemigo_de(x, y, segundo)
        } else if c == 'B' {
            bomba_de(x, y, false, segundo)
        } else if c == 'S' {
            bomba_de(x, y, true, segundo)
        } else if c == 'R' {
            Ok(Casilla::Piedra(Obstaculo { x, y, pasable: true }))
        } else if c == 'W' {
            Ok(Casilla::Pared(Obstaculo { x, y, pasable: false }))
        } else if c == 'D' {
            desvio_de(x, y, segundo)
        } else if c == '_' {
            Ok(Casilla::Vacio)
        } else {
            Err("No se pudo crear la pieza: >"@ + s + "<"@)
        },
        None => Err("No se pudo crear la pieza: >"@ + s + "<"@),
    }
}

/// What a tile or an error message is, mathematically.
pub open spec fn vista(r: Result<Tile, String>) -> Result<Casilla, Seq<char>> {
    match r {
        Ok(t) => Ok(t@),
        Err(e) => Err(e@),
    }
}

/// Builds the enemy written as `F` and `segundo_caracter`; without a
/// second character the enemy has one point of health.
fn crear_enemigo(x_pos: usize, y_pos: usize, segundo_caracter: Option<char>) -> (r: Result<
    Tile,
    String,
>)
    ensures
        vista(r) == enemigo_de(x_pos, y_pos, segundo_caracter),
        r matches Ok(t) ==> t.wf(),
{
    let vida = match segundo_caracter {
        Some(c) => digito(c),
        None => Some(1),
    };
    match vida {
        Some(vida) => if vida > 0 {
            Ok(Tile::Enemigo(Enemigo::crear(x_pos, y_pos, vida)))
        } else {
            Err("Un enemigo no puede tener vida negativa: F0".to_owned())
        },
        None => Err("Los enemigos deben tener vida".to_owned()),
    }
}

/// Builds the bomb written as `B` or `S` and `segundo_caracter`.
fn crear_bomba(x_pos: usize, y_pos: usize, especial: bool, segundo_caracter: Option<char>) -> (r:
    Result<Tile, String>)
    ensures
        vista(r) == bomba_de(x_pos, y_pos, especial, segundo_caracter),
        r matches Ok(t) ==> t.wf(),
{
    let radio = match segundo_caracter {
        Some(c) => digito(c),
        None => None,
    };
    match radio {
        Some(radio) => if radio > 0 {
            let bomba = Bomba::crear(x_pos, y_pos, radio, especial);
            if especial {
                Ok(Tile::BombaEspecial(bomba))
            } else {
                Ok(Tile::BombaNormal(bomba))
            }
        } else {
            Err("Una bomba no puede tener radio negativo: B0".to_owned())
        },
        None => Err("Una bomba debe tener radio, B".to_owned()),
    }
}

/// Builds the deflector written as `D` and `segundo_caracter`.
fn crear_desvio(x_pos: usize, y_pos: usize, segundo_caracter: Option<char>) -> (r: Result<
    Tile,
    String,
>)
    ensures
        vista(r) == desvio_de(x_pos, y_pos, segundo_caracter),
        r matches Ok(t) ==> t.wf(),
{
    match segundo_caracter {
        None => Err("Un desvio debe tener direccion, D".to_owned()),
        Some(direccion) => {
            let direccion = if direccion == 'U' {
                Direccion::Arriba
            } else if direccion == 'D' {
                Direccion::Abajo
            } else if direccion == 'L' {
                Direccion::Izquierda
            } else if direccion == 'R' {
                Direccion::Derecha
            } else {
                let mut error = "Direccion invalida: D".to_owned();
                agregar_caracter(&mut error, direccion);
                return Err(error);
            };
            Ok(Tile::Desvio(Desvio { x: x_pos, y: y_pos, direccion }))
        },
    }
}

/// Builds the piece that the text `s` stands for, placed at
/// `(x_pos, y_pos)`: `F2`, `B2`, `S2`, `R`, `W`, `DU`, `_` and the like.
/// A text that stands for no piece is refused with a message that says why.
pub fn crear_pieza(s: &str, x_pos: usize, y_pos: usize) -> (r: Result<Tile, String>)
    ensures
        vista(r) == pieza(s@, x_pos, y_pos),
        r matches Ok(t) ==> t.wf(),
{
    let largo = s.unicode_len();
    let primer_caracter = if largo > 0 {
        Some(s.get_char(0))
    } else {
        None
    };
    let segundo_caracter = if largo > 1 {
        Some(s.get_char(1))
    } else {
        None
    };
    match primer_caracter {
        Some('F') => crear_enemigo(x_pos, y_pos, segundo_caracter),
        Some('B') => crear_bomba(x_pos, y_pos, false, segundo_caracter),
        Some('S') => crear_bomba(x_pos, y_pos, true, segundo_caracter),
        Some('R') => Ok(Tile::Piedra(Obstaculo::crear(x_pos, y_pos, true))),
        Some('W') => Ok(Tile::Pared(Obstaculo::crear(x_pos, y_pos, false))),
        Some('D') => crear_desvio(x_pos, y_pos, segundo_caracter),
        Some('_') => Ok(Tile::Vacio),
        _ => {
            let mut error = "No se pudo crear la pieza: >".to_owned();
            error.append(s);
            error.append("<");
            Err(error)
        },
    }
}

} // verus!
