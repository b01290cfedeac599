//! One turn: the bomb at the chosen cell goes off, harms the enemies that
//! its blast reaches and sets off the bombs that it reaches.

use vstd::prelude::*;
use crate::modelo::bomba::Bomba;
use crate::modelo::coordenada::Coordenada;
use crate::modelo::enemigo::EnemigoModelo;
use crate::modelo::mapa::Mapa;
use crate::modelo::rayo::rayo;
use crate::modelo::rayo::{
    lema_rayo_sin_obstaculos, lema_tramo_acotado, limite_desvios, menor, recta,
    sin_obstaculos,
};
use crate::modelo::direccion::Direccion;
use crate::modelo::tablero::{
    alcanzable_en, atacada, casilla, dentro, destruida, golpeada, lema_bomba_contada,
    lema_bombas_atacada, lema_bombas_destruida, lema_colocar, lema_sucede_golpe,
    lema_sucede_transitiva, num_bombas, sucede, valido, enemigos_vivos, Tablero,
};
use crate::modelo::tile::{Casilla, Tile};

verus! {

/// The cells that the blast of a bomb at `(x, y)` reports: those of the ray
/// upwards, then downwards, then to the left, then to the right.
pub open spec fn explosion(t: Tablero, x: int, y: int, radio: nat, especial: bool) -> Seq<
    Coordenada,
> {
    rayo(t, x, y, 0, -1, radio, especial) + rayo(t, x, y, 0, 1, radio, especial) + rayo(
        t,
        x,
        y,
        -1,
        0,
        radio,
        especial,
    ) + rayo(t, x, y, 1, 0, radio, especial)
}

/// The cells that the blast of the bomb at `(x, y)` reports, the bomb's own
/// radius and kind being read from the board.
pub open spec fn explosion_en(t: Tablero, x: int, y: int) -> Seq<Coordenada>
    recommends
        hay_bomba(t, x, y),
{
    let b = casilla(t, x, y).bomba();
    explosion(t, x, y, b.radio as nat, b.especial)
}

/// The cell `(x, y)` is on the board and holds a bomb.
pub open spec fn hay_bomba(t: Tablero, x: int, y: int) -> bool {
    dentro(t, x, y) && casilla(t, x, y).es_bomba()
}

/// A cell that the blast of a bomb has reached and that has not been dealt
/// with yet.
pub struct Impacto {
    /// Where the bomb was.
    pub bomba: Coordenada,
    /// The cell that its blast reached.
    pub alcanzada: Coordenada,
}

/// The cells `alcanzadas`, each as reached by the bomb at `bomba`.
pub open spec fn impactos_de(bomba: Coordenada, alcanzadas: Seq<Coordenada>) -> Seq<Impacto> {
    Seq::new(alcanzadas.len(), |i: int| Impacto { bomba, alcanzada: alcanzadas[i] })
}

/// The board after the impacts `pendientes` have been dealt with, first to
/// last.
///
/// An enemy takes one point of damage from the bomb that reached it. A bomb
/// goes off: it is destroyed, and the cells that its own blast reports are
/// dealt with before the impacts that were pending. Any other cell is left
/// as it is.
pub open spec fn resolver(t: Tablero, pendientes: Seq<Impacto>) -> Tablero
    decreases num_bombas(t), pendientes.len(),
{
    if pendientes.len() == 0 {
        t
    } else {
        let b = pendientes[0].bomba;
        let c = pendientes[0].alcanzada;
        let resto = pendientes.drop_first();
        if dentro(t, c.x as int, c.y as int) && casilla(t, c.x as int, c.y as int) is Enemigo {
            proof {
                lema_bombas_atacada(t, b.x, b.y, c.x as int, c.y as int, 1);
            }
            resolver(atacada(t, b.x, b.y, c.x as int, c.y as int, 1), resto)
        } else if hay_bomba(t, c.x as int, c.y as int) {
            proof {
                lema_bombas_destruida(t, c.x as int, c.y as int);
            }
            resolver(
                destruida(t, c.x as int, c.y as int),
                impactos_de(c, explosion_en(t, c.x as int, c.y as int)) + resto,
            )
        } else {
            resolver(t, resto)
        }
    }
}

/// The board after the bomb at `(x, y)` has gone off, with all that follows
/// from it; the board itself where `(x, y)` holds no bomb.
pub open spec fn detonada(t: Tablero, x: usize, y: usize) -> Tablero {
    if hay_bomba(t, x as int, y as int) {
        resolver(
            destruida(t, x as int, y as int),
            impactos_de(Coordenada { x, y }, explosion_en(t, x as int, y as int)),
        )
    } else {
        t
    }
}

/// Dealing with one list of impacts and then with another is dealing with
/// the two lists joined.
pub proof fn lema_resolver_por_partes(t: Tablero, primeros: Seq<Impacto>, ultimos: Seq<Impacto>)
    ensures
        resolver(t, primeros + ultimos) == resolver(resolver(t, primeros), ultimos),
    decreases num_bombas(t), primeros.len(),
{
    if primeros.len() == 0 {
        assert(primeros + ultimos =~= ultimos);
    } else {
        let juntos = primeros + ultimos;
        let b = primeros[0].bomba;
        let c = primeros[0].alcanzada;
        let resto = primeros.drop_first();
        assert(juntos[0] == primeros[0]);
        assert(juntos.drop_first() =~= resto + ultimos);
        if dentro(t, c.x as int, c.y as int) && casilla(t, c.x as int, c.y as int) is Enemigo {
            lema_bombas_atacada(t, b.x, b.y, c.x as int, c.y as int, 1);
            lema_resolver_por_partes(
                atacada(t, b.x, b.y, c.x as int, c.y as int, 1),
                resto,
                ultimos,
            );
        } else if hay_bomba(t, c.x as int, c.y as int) {
            lema_bombas_destruida(t, c.x as int, c.y as int);
            let nuevos = impactos_de(c, explosion_en(t, c.x as int, c.y as int));
            assert(nuevos + (resto + ultimos) =~= (nuevos + resto) + ultimos);
            lema_resolver_por_partes(
                destruida(t, c.x as int, c.y as int),
                nuevos + resto,
                ultimos,
            );
        } else {
            lema_resolver_por_partes(t, resto, ultimos);
        }
    }
}

/// The blast of a bomb never reports more than four times its radius in
/// cells, and every cell that it reports is on the board and is empty or
/// holds an enemy or a bomb.
pub proof fn lema_explosion_acotada(t: Tablero, x: int, y: int, radio: nat, especial: bool)
    requires
        valido(t),
    ensures
        explosion(t, x, y, radio, especial).len() <= 4 * radio,
        forall|i: int|
            0 <= i < explosion(t, x, y, radio, especial).len() ==> alcanzable_en(
                t,
                (#[trigger] explosion(t, x, y, radio, especial)[i]).x as int,
                explosion(t, x, y, radio, especial)[i].y as int,
            ),
{
    let fuel = limite_desvios(t);
    lema_tramo_acotado(t, x, y, 0, -1, radio, radio, especial, fuel);
    lema_tramo_acotado(t, x, y, 0, 1, radio, radio, especial, fuel);
    lema_tramo_acotado(t, x, y, -1, 0, radio, radio, especial, fuel);
    lema_tramo_acotado(t, x, y, 1, 0, radio, radio, especial, fuel);
}

/// On a board without rocks, walls and deflectors, the blast of a bomb
/// reports, in each of the four directions, as many cells as its radius, or
/// as many as there are up to the edge of the board where that is nearer:
/// never more than four times its radius in all.
pub proof fn lema_explosion_sin_obstaculos(t: Tablero, x: int, y: int, radio: nat, especial: bool)
    requires
        valido(t),
        sin_obstaculos(t),
        dentro(t, x, y),
    ensures
        explosion(t, x, y, radio, especial) == recta(x, y, 0, -1, menor(radio, y as nat)) + recta(
            x,
            y,
            0,
            1,
            menor(radio, (t.len() - 1 - y) as nat),
        ) + recta(x, y, -1, 0, menor(radio, x as nat)) + recta(
            x,
            y,
            1,
            0,
            menor(radio, (t.len() - 1 - x) as nat),
        ),
        explosion(t, x, y, radio, especial).len() == menor(radio, y as nat) + menor(
            radio,
            (t.len() - 1 - y) as nat,
        ) + menor(radio, x as nat) + menor(radio, (t.len() - 1 - x) as nat),
        explosion(t, x, y, radio, especial).len() <= 4 * radio,
{
    lema_rayo_sin_obstaculos(t, x, y, Direccion::Arriba, radio, especial);
    lema_rayo_sin_obstaculos(t, x, y, Direccion::Abajo, radio, especial);
    lema_rayo_sin_obstaculos(t, x, y, Direccion::Izquierda, radio, especial);
    lema_rayo_sin_obstaculos(t, x, y, Direccion::Derecha, radio, especial);
}

/// The cells that the blast of `bomba`, placed at `(x_pos, y_pos)`, reports:
/// those of the ray upwards, then downwards, then to the left, then to the
/// right.
pub fn buscar_tiles(mapa: &Mapa, x_pos: usize, y_pos: usize, bomba: Bomba) -> (r: Vec<Coordenada>)
    requires
        mapa.wf(),
    ensures
        r@ == explosion(mapa@, x_pos as int, y_pos as int, bomba.radio as nat, bomba.especial),
        r@.len() <= 4 * bomba.radio,
        forall|i: int|
            0 <= i < r@.len() ==> alcanzable_en(mapa@, (#[trigger] r@[i]).x as int, r@[i].y as int),
{
    proof {
        mapa.lema_valido();
        lema_explosion_acotada(
            mapa@,
            x_pos as int,
            y_pos as int,
            bomba.radio as nat,
            bomba.especial,
        );
    }
    let mut tiles_encontradas: Vec<Coordenada> = Vec::new();
    let alcance = bomba.radio as usize;
    let especial = bomba.especial;
    let mut arriba = mapa.buscar_en_direccion(x_pos, y_pos, alcance, especial, 0, -1);
    let mut abajo = mapa.buscar_en_direccion(x_pos, y_pos, alcance, especial, 0, 1);
    let mut izquierda = mapa.buscar_en_direccion(x_pos, y_pos, alcance, especial, -1, 0);
    let mut derecha = mapa.buscar_en_direccion(x_pos, y_pos, alcance, especial, 1, 0);
    let ghost vacia = tiles_encontradas@;
    assert(vacia + arriba@ =~= arriba@);
    tiles_encontradas.append(&mut arriba);
    tiles_encontradas.append(&mut abajo);
    tiles_encontradas.append(&mut izquierda);
    tiles_encontradas.append(&mut derecha);
    tiles_encontradas
}

/// Plays the turn at `(x_pos, y_pos)`. A bomb there goes off: it is
/// destroyed, every enemy that its blast reaches takes one point of damage
/// from it, once, and every bomb that its blast reaches goes off in turn.
/// Without a bomb there the board is left as it is and the turn fails.
pub fn jugar_turno(mapa: &mut Mapa, x_pos: usize, y_pos: usize) -> (r: Result<(), &'static str>)
    requires
        old(mapa).wf(),
    ensures
        final(mapa).wf(),
        final(mapa).side_size == old(mapa).side_size,
        r is Ok <==> hay_bomba(old(mapa)@, x_pos as int, y_pos as int),
        r matches Err(e) ==> e@ == "No hay bomba en esa posicion"@ && final(mapa)@ == old(mapa)@,
        final(mapa)@ == detonada(old(mapa)@, x_pos, y_pos),
        num_bombas(final(mapa)@) <= num_bombas(old(mapa)@),
    decreases num_bombas(old(mapa)@),
{
    match mapa.obtener_tile(x_pos, y_pos) {
        Some(Tile::BombaNormal(bomba)) | Some(Tile::BombaEspecial(bomba)) => {
            let tiles_adyacentes: Vec<Coordenada> = buscar_tiles(mapa, x_pos, y_pos, bomba.clone());
            mapa.destruir_tile(x_pos, y_pos);
            let ghost origen = Coordenada { x: x_pos, y: y_pos };
            proof {
                lema_bombas_destruida(old(mapa)@, x_pos as int, y_pos as int);
                assert(tiles_adyacentes@.skip(0) =~= tiles_adyacentes@);
            }
            let mut i: usize = 0;
            while i < tiles_adyacentes.len()
                invariant
                    i <= tiles_adyacentes@.len(),
                    mapa.wf(),
                    mapa.side_size == old(mapa).side_size,
                    origen == (Coordenada { x: x_pos, y: y_pos }),
                    num_bombas(mapa@) < num_bombas(old(mapa)@),
                    resolver(mapa@, impactos_de(origen, tiles_adyacentes@.skip(i as int)))
                        == detonada(old(mapa)@, x_pos, y_pos),
                decreases tiles_adyacentes@.len() - i,
            {
                let tile = tiles_adyacentes[i];
                let ghost antes = mapa@;
                let ghost pendientes = impactos_de(origen, tiles_adyacentes@.skip(i as int));
                let ghost resto = impactos_de(origen, tiles_adyacentes@.skip(i + 1));
                proof {
                    assert(pendientes[0] == Impacto { bomba: origen, alcanzada: tile });
                    assert(pendientes.drop_first() =~= resto);
                }
                match mapa.obtener_tile(tile.x, tile.y) {
                    Some(Tile::Enemigo(_)) => {
                        mapa.atacar_enemigo(x_pos, y_pos, tile.x, tile.y, 1);
                        proof {
                            lema_bombas_atacada(antes, x_pos, y_pos, tile.x as int, tile.y as int, 1);
                        }
                    },
                    Some(Tile::BombaNormal(_)) | Some(Tile::BombaEspecial(_)) => {
                        let _ = jugar_turno(mapa, tile.x, tile.y);
                        proof {
                            lema_resolver_por_partes(
                                destruida(antes, tile.x as int, tile.y as int),
                                impactos_de(tile, explosion_en(antes, tile.x as int, tile.y as int)),
                                resto,
                            );
                        }
                    },
                    _ => {},
                }
                i += 1;
            }
            proof {
                assert(impactos_de(origen, tiles_adyacentes@.skip(i as int)) =~= Seq::<
                    Impacto,
                >::empty());
            }
            Ok(())
        },
        _ => Err("No hay bomba en esa posicion"),
    }
}

/// A bomb of radius zero destroys itself and nothing else: the board after
/// its turn is the board with that one cell emptied.
pub proof fn lema_radio_cero(t: Tablero, x: usize, y: usize)
    requires
        hay_bomba(t, x as int, y as int),
        casilla(t, x as int, y as int).bomba().radio == 0,
    ensures
        detonada(t, x, y) == destruida(t, x as int, y as int),
        casilla(detonada(t, x, y), x as int, y as int) == Casilla::Vacio,
        forall|i: int, j: int|
            dentro(t, i, j) && (i != x || j != y) ==> #[trigger] casilla(detonada(t, x, y), i, j)
                == casilla(t, i, j),
{
    let especial = casilla(t, x as int, y as int).bomba().especial;
    assert(explosion(t, x as int, y as int, 0, especial) =~= Seq::<Coordenada>::empty());
    lema_colocar(t, x as int, y as int, Casilla::Vacio);
}

/// On a board without bombs, dealing with the cells that the blast of one
/// bomb has reported leaves every cell that occurs among them as one attack
/// by that bomb leaves it, however often it occurs, and every other cell as
/// it was.
pub proof fn lema_impactos_sin_bombas(
    t: Tablero,
    bomba: Coordenada,
    alcanzadas: Seq<Coordenada>,
    c: Coordenada,
)
    requires
        num_bombas(t) == 0,
        dentro(t, c.x as int, c.y as int),
    ensures
        dentro(resolver(t, impactos_de(bomba, alcanzadas)), c.x as int, c.y as int),
        casilla(resolver(t, impactos_de(bomba, alcanzadas)), c.x as int, c.y as int) == if
            alcanzadas.contains(c) {
            golpeada(casilla(t, c.x as int, c.y as int), bomba.x, bomba.y, 1)
        } else {
            casilla(t, c.x as int, c.y as int)
        },
    decreases alcanzadas.len(),
{
    let pendientes = impactos_de(bomba, alcanzadas);
    if alcanzadas.len() > 0 {
        let h = alcanzadas[0];
        let resto = alcanzadas.drop_first();
        assert(pendientes[0] == Impacto { bomba, alcanzada: h });
        assert(pendientes.drop_first() =~= impactos_de(bomba, resto));
        if hay_bomba(t, h.x as int, h.y as int) {
            lema_bomba_contada(t, h.x as int, h.y as int);
        }
        let t1 = if dentro(t, h.x as int, h.y as int) && casilla(t, h.x as int, h.y as int)
            is Enemigo {
            atacada(t, bomba.x, bomba.y, h.x as int, h.y as int, 1)
        } else {
            t
        };
        assert(resolver(t, pendientes) == resolver(t1, impactos_de(bomba, resto)));
        lema_bombas_atacada(t, bomba.x, bomba.y, h.x as int, h.y as int, 1);
        if dentro(t, h.x as int, h.y as int) {
            lema_colocar(
                t,
                h.x as int,
                h.y as int,
                golpeada(casilla(t, h.x as int, h.y as int), bomba.x, bomba.y, 1),
            );
        }
        lema_impactos_sin_bombas(t1, bomba, resto, c);
        assert(alcanzadas.contains(c) <==> h == c || resto.contains(c)) by {
            if alcanzadas.contains(c) {
                let i = choose|i: int| 0 <= i < alcanzadas.len() && alcanzadas[i] == c;
                if i > 0 {
                    assert(resto[i - 1] == c);
                }
            }
            if resto.contains(c) {
                let i = choose|i: int| 0 <= i < resto.len() && resto[i] == c;
                assert(alcanzadas[i + 1] == c);
            }
            if h == c {
                assert(alcanzadas[0] == c);
            }
        }
        if h == c {
            crate::modelo::tablero::lema_golpe_unico(
                casilla(t, c.x as int, c.y as int),
                bomba.x,
                bomba.y,
                1,
                1,
            );
        }
    } else {
        assert(!alcanzadas.contains(c));
    }
}

/// A bomb harms an enemy at most once. When the only bomb of the board goes
/// off, its own cell is emptied, every other cell that its blast reports is
/// left as one attack by the bomb leaves it, however many times the blast
/// reports that cell, and every cell that the blast does not report is left
/// as it was.
pub proof fn lema_bomba_sola(t: Tablero, x: usize, y: usize, c: Coordenada)
    requires
        hay_bomba(t, x as int, y as int),
        num_bombas(t) == 1,
        dentro(t, c.x as int, c.y as int),
    ensures
        dentro(detonada(t, x, y), c.x as int, c.y as int),
        casilla(detonada(t, x, y), c.x as int, c.y as int) == if c.x == x && c.y == y {
            Casilla::Vacio
        } else if explosion_en(t, x as int, y as int).contains(c) {
            golpeada(casilla(t, c.x as int, c.y as int), x, y, 1)
        } else {
            casilla(t, c.x as int, c.y as int)
        },
{
    lema_bombas_destruida(t, x as int, y as int);
    lema_colocar(t, x as int, y as int, Casilla::Vacio);
    lema_impactos_sin_bombas(
        destruida(t, x as int, y as int),
        Coordenada { x, y },
        explosion_en(t, x as int, y as int),
        c,
    );
}

/// No enemy loses more than one point to a bomb, however many paths of the
/// blast reach it. When the only bomb of a board on which every enemy is
/// alive goes off, its own cell is emptied. An enemy that its blast reports
/// and that it has not harmed before loses one point and records the bomb,
/// or is destroyed if that point was its last. Every other cell is left as
/// it was.
pub proof fn lema_bomba_sola_un_punto(t: Tablero, x: usize, y: usize, c: Coordenada)
    requires
        hay_bomba(t, x as int, y as int),
        num_bombas(t) == 1,
        enemigos_vivos(t),
        dentro(t, c.x as int, c.y as int),
    ensures
        dentro(detonada(t, x, y), c.x as int, c.y as int),
        casilla(detonada(t, x, y), c.x as int, c.y as int) == if c.x == x && c.y == y {
            Casilla::Vacio
        } else {
            match casilla(t, c.x as int, c.y as int) {
                Casilla::Enemigo(e) => if !explosion_en(t, x as int, y as int).contains(c)
                    || e.impactos.contains(Coordenada { x, y }) {
                    Casilla::Enemigo(e)
                } else if e.vida == 1 {
                    Casilla::Vacio
                } else {
                    Casilla::Enemigo(
                        EnemigoModelo {
                            vida: (e.vida - 1) as u32,
                            impactos: e.impactos.insert(Coordenada { x, y }),
                            ..e
                        },
                    )
                },
                otra => otra,
            }
        },
{
    lema_bomba_sola(t, x, y, c);
    assert(casilla(t, c.x as int, c.y as int).viva());
}

/// Whatever impacts are dealt with, every cell of the board stays a cell of
/// the board, and what it holds afterwards is something that can become of
/// what it held before.
pub proof fn lema_resolver_sucede(t: Tablero, pendientes: Seq<Impacto>, c: Coordenada)
    requires
        dentro(t, c.x as int, c.y as int),
    ensures
        dentro(resolver(t, pendientes), c.x as int, c.y as int),
        sucede(
            casilla(t, c.x as int, c.y as int),
            casilla(resolver(t, pendientes), c.x as int, c.y as int),
        ),
    decreases num_bombas(t), pendientes.len(),
{
    if pendientes.len() > 0 {
        let b = pendientes[0].bomba;
        let h = pendientes[0].alcanzada;
        let resto = pendientes.drop_first();
        let antes = casilla(t, c.x as int, c.y as int);
        if dentro(t, h.x as int, h.y as int) && casilla(t, h.x as int, h.y as int) is Enemigo {
            let t1 = atacada(t, b.x, b.y, h.x as int, h.y as int, 1);
            lema_bombas_atacada(t, b.x, b.y, h.x as int, h.y as int, 1);
            lema_colocar(
                t,
                h.x as int,
                h.y as int,
                golpeada(casilla(t, h.x as int, h.y as int), b.x, b.y, 1),
            );
            lema_sucede_golpe(antes, b.x, b.y);
            lema_resolver_sucede(t1, resto, c);
            lema_sucede_transitiva(
                antes,
                casilla(t1, c.x as int, c.y as int),
                casilla(resolver(t1, resto), c.x as int, c.y as int),
            );
        } else if hay_bomba(t, h.x as int, h.y as int) {
            let t1 = destruida(t, h.x as int, h.y as int);
            let cola = impactos_de(h, explosion_en(t, h.x as int, h.y as int)) + resto;
            lema_bombas_destruida(t, h.x as int, h.y as int);
            lema_colocar(t, h.x as int, h.y as int, Casilla::Vacio);
            lema_resolver_sucede(t1, cola, c);
            lema_sucede_transitiva(
                antes,
                casilla(t1, c.x as int, c.y as int),
                casilla(resolver(t1, cola), c.x as int, c.y as int),
            );
        } else {
            lema_resolver_sucede(t, resto, c);
        }
    }
}

/// No bomb takes more than one point from an enemy, however many bombs go
/// off in a turn and however their blasts run. Every cell of the board
/// stays a cell of the board; what it holds after the turn is what it held
/// before, or nothing where an enemy or a bomb was destroyed, or the same
/// enemy, which has then recorded each bomb that harmed it once and has
/// lost exactly one point for each bomb that it has recorded in the turn.
pub proof fn lema_un_punto_por_bomba(t: Tablero, x: usize, y: usize, c: Coordenada)
    requires
        dentro(t, c.x as int, c.y as int),
    ensures
        dentro(detonada(t, x, y), c.x as int, c.y as int),
        sucede(
            casilla(t, c.x as int, c.y as int),
            casilla(detonada(t, x, y), c.x as int, c.y as int),
        ),
{
    if hay_bomba(t, x as int, y as int) {
        let t1 = destruida(t, x as int, y as int);
        let cola = impactos_de(Coordenada { x, y }, explosion_en(t, x as int, y as int));
        lema_colocar(t, x as int, y as int, Casilla::Vacio);
        lema_resolver_sucede(t1, cola, c);
        lema_sucede_transitiva(
            casilla(t, c.x as int, c.y as int),
            casilla(t1, c.x as int, c.y as int),
            casilla(resolver(t1, cola), c.x as int, c.y as int),
        );
    }
}

} // verus!
