use vstd::prelude::*;
use super::coordenada::Coordenada;
use super::enemigo::EnemigoModelo;
use super::tile::Casilla;

verus! {

/// The board as a mathematical value: its rows from top to bottom, each a
/// sequence of cells from left to right.
pub type Tablero = Seq<Seq<Casilla>>;

/// Every row is as long as the board is high.
pub open spec fn cuadrado(t: Tablero) -> bool {
    forall|y: int| 0 <= y < t.len() ==> (#[trigger] t[y]).len() == t.len()
}

/// A board that a map can hold: square, and no larger than a machine can
/// count.
pub open spec fn valido(t: Tablero) -> bool {
    t.len() <= usize::MAX && cuadrado(t)
}

/// Every enemy on the board is alive.
pub open spec fn enemigos_vivos(t: Tablero) -> bool {
    forall|x: int, y: int| dentro(t, x, y) ==> (#[trigger] casilla(t, x, y)).viva()
}

/// `(x, y)` is a cell of the board.
pub open spec fn dentro(t: Tablero, x: int, y: int) -> bool {
    0 <= y < t.len() && 0 <= x < t[y].len()
}

/// The cell at column `x` of row `y`.
pub open spec fn casilla(t: Tablero, x: int, y: int) -> Casilla
    recommends
        dentro(t, x, y),
{
    t[y][x]
}

/// `(x, y)` is a cell of the board that a blast reports and goes through:
/// it is empty or holds an enemy or a bomb.
pub open spec fn alcanzable_en(t: Tablero, x: int, y: int) -> bool {
    dentro(t, x, y) && casilla(t, x, y).alcanzable()
}

/// The board with the cell at `(x, y)` replaced by `c`.
pub open spec fn colocar(t: Tablero, x: int, y: int, c: Casilla) -> Tablero
    recommends
        dentro(t, x, y),
{
    t.update(y, t[y].update(x, c))
}

/// The board with the cell at `(x, y)` emptied; outside the board nothing
/// changes.
pub open spec fn destruida(t: Tablero, x: int, y: int) -> Tablero {
    if dentro(t, x, y) {
        colocar(t, x, y, Casilla::Vacio)
    } else {
        t
    }
}

/// What a cell holds after the bomb at `(bx, by)` has dealt it `dmg` points
/// of damage. Only an enemy that this bomb has not harmed before is
/// affected: it is destroyed when its health is at most `dmg`, and
/// otherwise loses `dmg` points and records the bomb.
pub open spec fn golpeada(c: Casilla, bx: usize, by: usize, dmg: u32) -> Casilla {
    match c {
        Casilla::Enemigo(e) => {
            if e.impactos.contains(Coordenada { x: bx, y: by }) {
                c
            } else if e.vida <= dmg {
                Casilla::Vacio
            } else {
                Casilla::Enemigo(
                    EnemigoModelo {
                        vida: (e.vida - dmg) as u32,
                        impactos: e.impactos.insert(Coordenada { x: bx, y: by }),
                        ..e
                    },
                )
            }
        },
        _ => c,
    }
}

/// The board after the bomb at `(bx, by)` has dealt `dmg` points of damage
/// to the cell at `(x, y)`; outside the board nothing changes.
pub open spec fn atacada(t: Tablero, bx: usize, by: usize, x: int, y: int, dmg: u32) -> Tablero {
    if dentro(t, x, y) {
        colocar(t, x, y, golpeada(casilla(t, x, y), bx, by, dmg))
    } else {
        t
    }
}

/// A second attack by the same bomb changes nothing: a cell that a bomb has
/// harmed is left as it is by that bomb from then on, whatever the damage.
pub proof fn lema_golpe_unico(c: Casilla, bx: usize, by: usize, dmg: u32, otro: u32)
    ensures
        golpeada(golpeada(c, bx, by, dmg), bx, by, otro) == golpeada(c, bx, by, dmg),
{
}

/// A second attack by the same bomb on the same cell leaves the board as the
/// first attack left it.
pub proof fn lema_ataque_unico(
    t: Tablero,
    bx: usize,
    by: usize,
    x: int,
    y: int,
    dmg: u32,
    otro: u32,
)
    ensures
        atacada(atacada(t, bx, by, x, y, dmg), bx, by, x, y, otro) == atacada(
            t,
            bx,
            by,
            x,
            y,
            dmg,
        ),
{
    lema_golpe_unico(casilla(t, x, y), bx, by, dmg, otro);
    assert(atacada(atacada(t, bx, by, x, y, dmg), bx, by, x, y, otro) =~~= atacada(
        t,
        bx,
        by,
        x,
        y,
        dmg,
    ));
}

/// What can become of a cell in the course of a turn: it stays as it is; or
/// an enemy or a bomb is destroyed; or an enemy stays where it is, keeps the
/// bombs that it had recorded and, if those were finitely many, has lost one
/// point of health for each bomb that it has recorded since.
pub open spec fn sucede(a: Casilla, b: Casilla) -> bool {
    ||| b == a
    ||| (b is Vacio && (a is Enemigo || a.es_bomba()))
    ||| (a is Enemigo && b is Enemigo && {
        let e = a->Enemigo_0;
        let f = b->Enemigo_0;
        &&& f.x == e.x
        &&& f.y == e.y
        &&& e.impactos.subset_of(f.impactos)
        &&& e.impactos.finite() ==> f.impactos.finite() && e.vida - f.vida == f.impactos.len()
            - e.impactos.len()
    })
}

/// What can become of a cell in two stretches of a turn can become of it in
/// the turn.
pub proof fn lema_sucede_transitiva(a: Casilla, b: Casilla, c: Casilla)
    requires
        sucede(a, b),
        sucede(b, c),
    ensures
        sucede(a, c),
{
}

/// One point of damage by a bomb is something that can become of a cell in
/// a turn: the enemy that it harms records the bomb and loses one point.
pub proof fn lema_sucede_golpe(c: Casilla, bx: usize, by: usize)
    ensures
        sucede(c, golpeada(c, bx, by, 1)),
{
}

/// Two boards have the same cells: as many rows, and each row as long.
pub open spec fn misma_forma(t: Tablero, u: Tablero) -> bool {
    &&& t.len() == u.len()
    &&& forall|y: int| 0 <= y < t.len() ==> (#[trigger] t[y]).len() == u[y].len()
}

/// Replacing a cell keeps the shape of the board and every other cell.
pub proof fn lema_colocar(t: Tablero, x: int, y: int, c: Casilla)
    requires
        dentro(t, x, y),
    ensures
        misma_forma(colocar(t, x, y, c), t),
        casilla(colocar(t, x, y, c), x, y) == c,
        forall|i: int, j: int|
            dentro(t, i, j) && (i != x || j != y) ==> #[trigger] casilla(colocar(t, x, y, c), i, j)
                == casilla(t, i, j),
{
}

/// How many cells of the row hold a bomb.
pub open spec fn bombas_en_fila(f: Seq<Casilla>) -> nat
    decreases f.len(),
{
    if f.len() == 0 {
        0
    } else {
        bombas_en_fila(f.drop_last()) + if f.last().es_bomba() {
            1nat
        } else {
            0nat
        }
    }
}

/// How many cells of the board hold a bomb.
pub open spec fn num_bombas(t: Tablero) -> nat
    decreases t.len(),
{
    if t.len() == 0 {
        0
    } else {
        num_bombas(t.drop_last()) + bombas_en_fila(t.last())
    }
}

/// Replacing one cell of a row changes its number of bombs by what the old
/// and the new cell contribute.
pub proof fn lema_bombas_fila_cambiada(f: Seq<Casilla>, x: int, c: Casilla)
    requires
        0 <= x < f.len(),
    ensures
        bombas_en_fila(f.update(x, c)) + (if f[x].es_bomba() {
            1nat
        } else {
            0nat
        }) == bombas_en_fila(f) + (if c.es_bomba() {
            1nat
        } else {
            0nat
        }),
    decreases f.len(),
{
    let g = f.update(x, c);
    if x == f.len() - 1 {
        assert(g.drop_last() =~= f.drop_last());
    } else {
        assert(g.drop_last() =~= f.drop_last().update(x, c));
        lema_bombas_fila_cambiada(f.drop_last(), x, c);
    }
}

/// Replacing one row of the board changes its number of bombs by what the
/// old and the new row contribute.
pub proof fn lema_bombas_fila_reemplazada(t: Tablero, y: int, f: Seq<Casilla>)
    requires
        0 <= y < t.len(),
    ensures
        num_bombas(t.update(y, f)) + bombas_en_fila(t[y]) == num_bombas(t) + bombas_en_fila(f),
    decreases t.len(),
{
    let u = t.update(y, f);
    if y == t.len() - 1 {
        assert(u.drop_last() =~= t.drop_last());
    } else {
        assert(u.drop_last() =~= t.drop_last().update(y, f));
        lema_bombas_fila_reemplazada(t.drop_last(), y, f);
    }
}

/// Replacing one cell of the board changes its number of bombs by what the
/// old and the new cell contribute.
pub proof fn lema_bombas_colocar(t: Tablero, x: int, y: int, c: Casilla)
    requires
        dentro(t, x, y),
    ensures
        num_bombas(colocar(t, x, y, c)) + (if casilla(t, x, y).es_bomba() {
            1nat
        } else {
            0nat
        }) == num_bombas(t) + (if c.es_bomba() {
            1nat
        } else {
            0nat
        }),
{
    lema_bombas_fila_cambiada(t[y], x, c);
    lema_bombas_fila_reemplazada(t, y, t[y].update(x, c));
}

/// Destroying a bomb leaves one bomb fewer; destroying anything else leaves
/// as many.
pub proof fn lema_bombas_destruida(t: Tablero, x: int, y: int)
    ensures
        dentro(t, x, y) && casilla(t, x, y).es_bomba() ==> num_bombas(destruida(t, x, y)) + 1
            == num_bombas(t),
        !(dentro(t, x, y) && casilla(t, x, y).es_bomba()) ==> num_bombas(destruida(t, x, y))
            == num_bombas(t),
{
    if dentro(t, x, y) {
        lema_bombas_colocar(t, x, y, Casilla::Vacio);
    }
}

/// An attack neither makes nor removes a bomb.
pub proof fn lema_bombas_atacada(t: Tablero, bx: usize, by: usize, x: int, y: int, dmg: u32)
    ensures
        num_bombas(atacada(t, bx, by, x, y, dmg)) == num_bombas(t),
{
    if dentro(t, x, y) {
        lema_bombas_colocar(t, x, y, golpeada(casilla(t, x, y), bx, by, dmg));
    }
}

/// A board that holds a bomb counts at least one.
pub proof fn lema_bomba_contada(t: Tablero, x: int, y: int)
    requires
        dentro(t, x, y),
        casilla(t, x, y).es_bomba(),
    ensures
        num_bombas(t) >= 1,
{
    lema_bombas_colocar(t, x, y, Casilla::Vacio);
}

} // verus!
