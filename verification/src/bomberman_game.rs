//! A game from text to text: the board is read from lines of text, one turn
//! is played on it, and the board that results is written as text again.

use vstd::prelude::*;
use vstd::string::*;
use crate::modelo::desvio::letra_de;
use crate::modelo::fabrica::{crear_pieza, pieza, vista};
use crate::modelo::mapa::Mapa;
use crate::modelo::tablero::{cuadrado, Tablero};
use crate::modelo::tile::{Casilla, Tile};
use crate::texto::{
    agregar_caracter, agregar_decimal, contenidos, decimal, es_numero, leer_numero,
    motivo_de_rechazo, palabras, palabras_de, recortada, recortar, sin_signo, valor_decimal,
};
use crate::turno::{detonada, hay_bomba, jugar_turno};

verus! {

/// The pieces that some words stand for, the `i`-th placed at `(i, y)`, or
/// why the first word that stands for no piece does not.
pub open spec fn piezas(ws: Seq<Seq<char>>, y: usize) -> Result<Seq<Casilla>, Seq<char>>
    decreases ws.len(),
{
    if ws.len() == 0 {
        Ok(Seq::empty())
    } else {
        match piezas(ws.drop_last(), y) {
            Err(e) => Err(e),
            Ok(cs) => match pieza(ws.last(), (ws.len() - 1) as usize, y) {
                Err(e) => Err(e),
                Ok(c) => Ok(cs.push(c)),
            },
        }
    }
}

/// The row of the board that a line of text stands for: one piece for each
/// of its words, white space at its ends being ignored.
pub open spec fn fila_de(linea: Seq<char>, y: usize) -> Result<Seq<Casilla>, Seq<char>> {
    piezas(palabras(recortada(linea)), y)
}

/// What the tiles of a row are, mathematically.
pub open spec fn vista_fila(v: Seq<Tile>) -> Seq<Casilla> {
    Seq::new(v.len(), |i: int| v[i]@)
}

/// What a row of tiles or an error message is, mathematically.
pub open spec fn vista_de_fila(r: Result<Vec<Tile>, String>) -> Result<Seq<Casilla>, Seq<char>> {
    match r {
        Ok(v) => Ok(vista_fila(v@)),
        Err(e) => Err(e@),
    }
}

/// A word that stands for no piece spoils every row that begins with the
/// words up to it.
pub proof fn lema_piezas_fallidas(ws: Seq<Seq<char>>, k: int, y: usize)
    requires
        0 <= k <= ws.len(),
        piezas(ws.take(k), y) is Err,
    ensures
        piezas(ws, y) == piezas(ws.take(k), y),
    decreases ws.len(),
{
    if k == ws.len() {
        assert(ws.take(k) =~= ws);
    } else {
        assert(ws.drop_last().take(k) =~= ws.take(k));
        lema_piezas_fallidas(ws.drop_last(), k, y);
    }
}

/// Reads a row of the board from a line of text such as `F1 _ _ B3 _ R W`:
/// the words of the line, which spaces separate, are the pieces of the row
/// from left to right. The first word that stands for no piece has the line
/// refused, with the reason.
pub fn transformar_linea(s: String, y_pos: usize) -> (r: Result<Vec<Tile>, String>)
    ensures
        vista_de_fila(r) == fila_de(s@, y_pos),
        r matches Ok(v) ==> forall|i: int| 0 <= i < v@.len() ==> (#[trigger] v@[i]).wf(),
{
    let caracteres: Vec<&str> = palabras_de(recortar(s.as_str()));
    let ghost ws = contenidos(caracteres@);
    let mut tiles: Vec<Tile> = Vec::new();
    let mut x_pos: usize = 0;
    proof {
        assert(vista_fila(tiles@) =~= Seq::<Casilla>::empty());
    }
    while x_pos < caracteres.len()
        invariant
            ws == contenidos(caracteres@),
            ws == palabras(recortada(s@)),
            x_pos <= caracteres@.len(),
            tiles@.len() == x_pos,
            piezas(ws.take(x_pos as int), y_pos) == Ok::<Seq<Casilla>, Seq<char>>(
                vista_fila(tiles@),
            ),
            forall|i: int| 0 <= i < tiles@.len() ==> (#[trigger] tiles@[i]).wf(),
        decreases caracteres@.len() - x_pos,
    {
        let ghost antes = tiles@;
        let tile = crear_pieza(caracteres[x_pos], x_pos, y_pos);
        proof {
            assert(ws.take(x_pos + 1).drop_last() =~= ws.take(x_pos as int));
            assert(ws.take(x_pos + 1).last() == caracteres@[x_pos as int]@);
        }
        match tile {
            Ok(tile) => {
                tiles.push(tile);
                proof {
                    assert(vista_fila(tiles@) =~= vista_fila(antes).push(tile@));
                }
            },
            Err(why) => {
                proof {
                    lema_piezas_fallidas(ws, x_pos + 1, y_pos);
                }
                return Err(why);
            },
        }
        x_pos += 1;
    }
    proof {
        assert(ws.take(x_pos as int) =~= ws);
    }
    Ok(tiles)
}

/// What each of some lines holds.
pub open spec fn textos(lineas: Seq<String>) -> Seq<Seq<char>> {
    Seq::new(lineas.len(), |i: int| lineas[i]@)
}

/// The width that the rows read so far fix for the board: the length of the
/// first of them that is not empty, and zero while all are empty.
pub open spec fn lado_de(filas: Tablero) -> nat
    decreases filas.len(),
{
    if filas.len() == 0 {
        0
    } else if lado_de(filas.drop_last()) != 0 {
        lado_de(filas.drop_last())
    } else {
        filas.last().len()
    }
}

/// The rows that some lines of text stand for, top to bottom, or why they
/// stand for none: the lines are gone through in order, and the first line
/// that holds a word that stands for no piece, or whose row is not as wide
/// as the rows before it, is refused.
pub open spec fn filas_de(lineas: Seq<Seq<char>>) -> Result<Tablero, Seq<char>>
    decreases lineas.len(),
{
    if lineas.len() == 0 {
        Ok(Seq::empty())
    } else {
        match filas_de(lineas.drop_last()) {
            Err(e) => Err(e),
            Ok(filas) => match fila_de(lineas.last(), (lineas.len() - 1) as usize) {
                Err(e) => Err(e),
                Ok(f) => if lado_de(filas) != 0 && f.len() != lado_de(filas) {
                    Err("El mapa no es cuadrado"@)
                } else {
                    Ok(filas.push(f))
                },
            },
        }
    }
}

/// The board that some lines of text stand for, or why they stand for none:
/// the rows must make a square of at least one cell.
pub open spec fn mapa_de(lineas: Seq<Seq<char>>) -> Result<Tablero, Seq<char>> {
    match filas_de(lineas) {
        Err(e) => Err(e),
        Ok(filas) => if filas.len() > 0 && cuadrado(filas) {
            Ok(filas)
        } else {
            Err("El mapa no es cuadrado"@)
        },
    }
}

/// What a map or an error message is, mathematically.
pub open spec fn vista_de_mapa(r: Result<Mapa, String>) -> Result<Tablero, Seq<char>> {
    match r {
        Ok(m) => Ok(m@),
        Err(e) => Err(e@),
    }
}

/// A line that is refused spoils every text that begins with the lines up
/// to it.
pub proof fn lema_filas_fallidas(lineas: Seq<Seq<char>>, k: int)
    requires
        0 <= k <= lineas.len(),
        filas_de(lineas.take(k)) is Err,
    ensures
        filas_de(lineas) == filas_de(lineas.take(k)),
    decreases lineas.len(),
{
    if k == lineas.len() {
        assert(lineas.take(k) =~= lineas);
    } else {
        assert(lineas.drop_last().take(k) =~= lineas.take(k));
        lema_filas_fallidas(lineas.drop_last(), k);
    }
}

/// Reads the board from the lines of a text, one row a line. The text is
/// refused when a word of it stands for no piece and when its rows do not
/// make a square of at least one cell.
pub fn transformar_a_mapa(lineas: &Vec<String>) -> (r: Result<Mapa, String>)
    ensures
        vista_de_mapa(r) == mapa_de(textos(lineas@)),
        r matches Ok(m) ==> m.wf(),
{
    let mut mapa = Mapa::crear();
    let ghost ls = textos(lineas@);
    let mut y_pos: usize = 0;
    while y_pos < lineas.len()
        invariant
            ls == textos(lineas@),
            y_pos <= lineas@.len(),
            mapa.tiles@.len() == y_pos,
            filas_de(ls.take(y_pos as int)) == Ok::<Tablero, Seq<char>>(mapa@),
            mapa.side_size == lado_de(mapa@),
            y_pos > 0 && mapa.tiles@[0]@.len() != 0 ==> mapa.side_size == mapa.tiles@[0]@.len(),
            forall|y: int|
                0 <= y < y_pos && mapa.tiles@[0]@.len() != 0 ==> (#[trigger] mapa.tiles@[y])@.len()
                    == mapa.side_size,
            forall|y: int, x: int|
                0 <= y < mapa.tiles@.len() && 0 <= x < mapa.tiles@[y]@.len()
                    ==> (#[trigger] mapa.tiles@[y]@[x]).wf(),
        decreases lineas@.len() - y_pos,
    {
        let ghost antes = mapa@;
        let ghost lado = mapa.side_size;
        proof {
            assert(ls.take(y_pos + 1).drop_last() =~= ls.take(y_pos as int));
            assert(ls.take(y_pos + 1).last() == lineas@[y_pos as int]@);
        }
        let tiles_temp = match transformar_linea(lineas[y_pos].clone(), y_pos) {
            Ok(tiles) => tiles,
            Err(why) => {
                proof {
                    lema_filas_fallidas(ls, y_pos + 1);
                }
                return Err(why);
            },
        };
        if mapa.side_size == 0 {
            mapa.side_size = tiles_temp.len();
        }
        if tiles_temp.len() != mapa.side_size {
            proof {
                lema_filas_fallidas(ls, y_pos + 1);
            }
            return Err("El mapa no es cuadrado".to_owned());
        }
        mapa.tiles.push(tiles_temp);
        proof {
            assert(mapa@ =~~= antes.push(vista_fila(tiles_temp@)));
            assert(mapa@.drop_last() =~= antes);
        }
        y_pos += 1;
    }
    proof {
        assert(ls.take(y_pos as int) =~= ls);
    }
    if lineas.len() == 0 || mapa.side_size != lineas.len() || mapa.tiles[0].len()
        != mapa.side_size {
        proof {
            if lineas@.len() > 0 && cuadrado(mapa@) {
                assert(mapa@[0].len() == mapa@.len());
            }
        }
        return Err("El mapa no es cuadrado".to_owned());
    }
    proof {
        assert forall|y: int| 0 <= y < mapa@.len() implies (#[trigger] mapa@[y]).len()
            == mapa@.len() by {
            assert(mapa.tiles@[y]@.len() == mapa.side_size);
        }
    }
    Ok(mapa)
}

/// The board that some lines of text stand for, or the message that says
/// that they could not be made into a board, and why.
pub open spec fn mapa_inicial(lineas: Seq<Seq<char>>) -> Result<Tablero, Seq<char>> {
    match mapa_de(lineas) {
        Ok(t) => Ok(t),
        Err(e) => Err("No se pudo transformar el archivo a mapa: "@ + e),
    }
}

/// The message that says that no board could be made, and why.
pub fn error_de_mapa(why: &str) -> (r: String)
    ensures
        r@ == "No se pudo transformar el archivo a mapa: "@ + why@,
{
    let mut error = "No se pudo transformar el archivo a mapa: ".to_owned();
    error.append(why);
    error
}

/// Reads the board that a game starts from; a text that is refused is
/// reported as such, with the reason.
pub fn inicializar_mapa(lineas: &Vec<String>) -> (r: Result<Mapa, String>)
    ensures
        vista_de_mapa(r) == mapa_inicial(textos(lineas@)),
        r matches Ok(m) ==> m.wf(),
{
    match transformar_a_mapa(lineas) {
        Ok(mapa) => Ok(mapa),
        Err(why) => Err(error_de_mapa(why.as_str())),
    }
}

/// The cell that two numbers written as text name, the column first, or the
/// message that says which of the two is no number, and why.
pub open spec fn posicion_de(x: Seq<char>, y: Seq<char>) -> Result<(usize, usize), Seq<char>> {
    if !es_numero(x) {
        Err("No se pudo parsear el argumento x: "@ + motivo_de_rechazo(x))
    } else if !es_numero(y) {
        Err("No se pudo parsear el argumento y: "@ + motivo_de_rechazo(y))
    } else {
        Ok((valor_decimal(sin_signo(x)) as usize, valor_decimal(sin_signo(y)) as usize))
    }
}

/// What a position or an error message is, mathematically.
pub open spec fn vista_de_posicion(r: Result<(usize, usize), String>) -> Result<
    (usize, usize),
    Seq<char>,
> {
    match r {
        Ok(p) => Ok(p),
        Err(e) => Err(e@),
    }
}

/// Reads the cell at which the turn is played from the arguments of the
/// program: the fourth is the column and the fifth the row.
pub fn inicializar_posicion(argumentos: &[String]) -> (r: Result<(usize, usize), String>)
    requires
        argumentos@.len() >= 5,
    ensures
        vista_de_posicion(r) == posicion_de(argumentos@[3]@, argumentos@[4]@),
{
    let x_pos = match leer_numero(argumentos[3].as_str()) {
        Err(why) => {
            let mut error = "No se pudo parsear el argumento x: ".to_owned();
            error.append(why.as_str());
            return Err(error);
        },
        Ok(x_pos) => x_pos,
    };
    let y_pos = match leer_numero(argumentos[4].as_str()) {
        Err(why) => {
            let mut error = "No se pudo parsear el argumento y: ".to_owned();
            error.append(why.as_str());
            return Err(error);
        },
        Ok(y_pos) => y_pos,
    };
    Ok((x_pos, y_pos))
}

/// The board after the game, or the message that says why it was not
/// played: the text is no board, the position is no pair of numbers, or the
/// cell at that position holds no bomb.
pub open spec fn partida(lineas: Seq<Seq<char>>, x: Seq<char>, y: Seq<char>) -> Result<
    Tablero,
    Seq<char>,
> {
    match mapa_inicial(lineas) {
        Err(e) => Err(e),
        Ok(t) => match posicion_de(x, y) {
            Err(e) => Err(e),
            Ok(p) => if hay_bomba(t, p.0 as int, p.1 as int) {
                Ok(detonada(t, p.0, p.1))
            } else {
                Err("No hay bomba en esa posicion"@)
            },
        },
    }
}

/// Plays one turn on the board that `lineas` stand for, at the cell that
/// the fourth and fifth of `argumentos` name, and gives the board that
/// results.
pub fn jugar(lineas: &Vec<String>, argumentos: &[String]) -> (r: Result<Mapa, String>)
    requires
        argumentos@.len() >= 5,
    ensures
        vista_de_mapa(r) == partida(textos(lineas@), argumentos@[3]@, argumentos@[4]@),
        r matches Ok(m) ==> m.wf(),
{
    let mut mapa = match inicializar_mapa(lineas) {
        Ok(mapa) => mapa,
        Err(why) => {
            return Err(why);
        },
    };
    let (x_pos, y_pos) = match inicializar_posicion(argumentos) {
        Ok(posicion) => posicion,
        Err(why) => {
            return Err(why);
        },
    };
    match jugar_turno(&mut mapa, x_pos, y_pos) {
        Ok(_) => Ok(mapa),
        Err(why) => Err(why.to_owned()),
    }
}

/// How a cell is written: the letter of its kind, followed for an enemy by
/// its health, for a bomb by its radius and for a deflector by the letter
/// of its direction.
pub open spec fn texto_de_casilla(c: Casilla) -> Seq<char> {
    match c {
        Casilla::Enemigo(e) => seq!['F'] + decimal(e.vida as nat),
        Casilla::BombaNormal(b) => seq!['B'] + decimal(b.radio as nat),
        Casilla::BombaEspecial(b) => seq!['S'] + decimal(b.radio as nat),
        Casilla::Piedra(_) => seq!['R'],
        Casilla::Pared(_) => seq!['W'],
        Casilla::Desvio(d) => seq!['D', letra_de(d.direccion)],
        Casilla::Vacio => seq!['_'],
    }
}

/// How the cells of a row are written: each followed by a space.
pub open spec fn texto_de_casillas(f: Seq<Casilla>) -> Seq<char>
    decreases f.len(),
{
    if f.len() == 0 {
        Seq::empty()
    } else {
        texto_de_casillas(f.drop_last()) + texto_de_casilla(f.last()).push(' ')
    }
}

/// How a board is written: row after row, each ended by a line feed.
pub open spec fn texto_de_tablero(t: Tablero) -> Seq<char>
    decreases t.len(),
{
    if t.len() == 0 {
        Seq::empty()
    } else {
        texto_de_tablero(t.drop_last()) + texto_de_casillas(t.last()).push('\n')
    }
}

/// Adds how `t` is written at the end of `s`.
fn agregar_tile(s: &mut String, t: &Tile)
    ensures
        final(s)@ == old(s)@ + texto_de_casilla(t@),
{
    match t {
        Tile::Enemigo(enemigo) => {
            agregar_caracter(s, 'F');
            agregar_decimal(s, enemigo.vida);
        },
        Tile::BombaNormal(bomba) => {
            agregar_caracter(s, 'B');
            agregar_decimal(s, bomba.radio);
        },
        Tile::BombaEspecial(bomba) => {
            agregar_caracter(s, 'S');
            agregar_decimal(s, bomba.radio);
        },
        Tile::Piedra(_) => agregar_caracter(s, 'R'),
        Tile::Pared(_) => agregar_caracter(s, 'W'),
        Tile::Desvio(desvio) => {
            agregar_caracter(s, 'D');
            agregar_caracter(s, desvio.char_direccion());
        },
        Tile::Vacio => agregar_caracter(s, '_'),
    }
    assert(final(s)@ =~= old(s)@ + texto_de_casilla(t@));
}

/// Writes the board as text: each cell by the letter of its kind and its
/// number or direction, a space after each cell and a line feed after each
/// row.
pub fn texto_de_mapa(mapa: &Mapa) -> (r: String)
    ensures
        r@ == texto_de_tablero(mapa@),
{
    let mut string: String = String::new();
    let mut y: usize = 0;
    proof {
        assert(mapa@.take(0) =~= Seq::<Seq<Casilla>>::empty());
    }
    while y < mapa.tiles.len()
        invariant
            y <= mapa.tiles@.len(),
            string@ == texto_de_tablero(mapa@.take(y as int)),
        decreases mapa.tiles@.len() - y,
    {
        let fila = &mapa.tiles[y];
        let ghost inicio = string@;
        let ghost f = mapa@[y as int];
        let mut x: usize = 0;
        proof {
            assert(f.take(0) =~= Seq::<Casilla>::empty());
            assert(inicio + texto_de_casillas(f.take(0)) =~= inicio);
        }
        while x < fila.len()
            invariant
                y < mapa.tiles@.len(),
                fila == &mapa.tiles@[y as int],
                f == mapa@[y as int],
                x <= fila@.len(),
                string@ == inicio + texto_de_casillas(f.take(x as int)),
            decreases fila@.len() - x,
        {
            let ghost previo = string@;
            agregar_tile(&mut string, &fila[x]);
            agregar_caracter(&mut string, ' ');
            proof {
                assert(f.take(x + 1).drop_last() =~= f.take(x as int));
                assert(f.take(x + 1).last() == fila@[x as int]@);
                assert(string@ =~= inicio + texto_de_casillas(f.take(x + 1)));
            }
            x += 1;
        }
        agregar_caracter(&mut string, '\n');
        proof {
            assert(f.take(x as int) =~= f);
            assert(mapa@.take(y + 1).drop_last() =~= mapa@.take(y as int));
            assert(mapa@.take(y + 1).last() == f);
            assert(string@ =~= texto_de_tablero(mapa@.take(y + 1)));
        }
        y += 1;
    }
    proof {
        assert(mapa@.take(y as int) =~= mapa@);
    }
    string
}

/// Writes an error as the program reports it: `ERROR[` and `]` around the
/// message.
pub fn texto_de_error(err: &str) -> (r: String)
    ensures
        r@ == "ERROR["@ + err@ + "]"@,
{
    let mut error_completo = "ERROR[".to_owned();
    error_completo.append(err);
    error_completo.append("]");
    error_completo
}

} // verus!
