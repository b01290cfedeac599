use vstd::prelude::*;
use super::coordenada::Coordenada;
use super::direccion::Direccion;
use super::tablero::{alcanzable_en, casilla, dentro, valido, Tablero};
use super::tile::Casilla;

verus! {

/// How many times in a row a blast is followed through deflectors without
/// reporting a cell in between: once for every cell of the board. A blast
/// that is turned more often than that is caught between deflectors that
/// send it round in a circle, and ends there.
pub open spec fn limite_desvios(t: Tablero) -> nat {
    t.len() * t.len()
}

/// The cells that a blast reports from `(x, y)`, which is not itself looked
/// at, moving by `(dx, dy)` at each step.
///
/// `pasos` is how many more steps the blast takes in a straight line,
/// `alcance` how many more cells it may report, and `desvios` how many more
/// times it may be turned before it reports a cell.
///
/// At each step the blast moves on one cell. It ends when it leaves the
/// board, at a wall, and at a rock unless `especial` is set; a rock that it
/// passes costs a step and is not reported. A deflector is not reported
/// either: it sends the blast on from the cell next to it in its own
/// direction, that cell not being looked at, with as many steps as there
/// are cells left to report. Any other cell is reported, and costs a step.
pub open spec fn tramo(
    t: Tablero,
    x: int,
    y: int,
    dx: int,
    dy: int,
    pasos: nat,
    alcance: nat,
    especial: bool,
    desvios: nat,
) -> Seq<Coordenada>
    decreases alcance, desvios, pasos,
{
    let nx = x + dx;
    let ny = y + dy;
    if pasos == 0 || alcance == 0 || !dentro(t, nx, ny) {
        Seq::empty()
    } else {
        match casilla(t, nx, ny) {
            Casilla::Pared(_) => Seq::empty(),
            Casilla::Piedra(_) => {
                if especial {
                    tramo(t, nx, ny, dx, dy, (pasos - 1) as nat, alcance, especial, desvios)
                } else {
                    Seq::empty()
                }
            },
            Casilla::Desvio(d) => {
                if desvios == 0 {
                    Seq::empty()
                } else {
                    tramo(
                        t,
                        nx + d.direccion.dx(),
                        ny + d.direccion.dy(),
                        d.direccion.dx(),
                        d.direccion.dy(),
                        alcance,
                        alcance,
                        especial,
                        (desvios - 1) as nat,
                    )
                }
            },
            _ => seq![Coordenada { x: nx as usize, y: ny as usize }] + tramo(
                t,
                nx,
                ny,
                dx,
                dy,
                (pasos - 1) as nat,
                (alcance - 1) as nat,
                especial,
                limite_desvios(t),
            ),
        }
    }
}

/// The cells that a blast of range `alcance` reports from `(x, y)` in the
/// direction `(dx, dy)`, in the order in which it reaches them.
pub open spec fn rayo(
    t: Tablero,
    x: int,
    y: int,
    dx: int,
    dy: int,
    alcance: nat,
    especial: bool,
) -> Seq<Coordenada> {
    tramo(t, x, y, dx, dy, alcance, alcance, especial, limite_desvios(t))
}

/// The cells that a blast reports after the deflector at `(x, y)` has turned
/// it, with `alcance` cells left to report; nothing if `(x, y)` holds no
/// deflector or the blast may not be turned any more.
pub open spec fn desviado(
    t: Tablero,
    x: int,
    y: int,
    alcance: nat,
    especial: bool,
    desvios: nat,
) -> Seq<Coordenada> {
    if dentro(t, x, y) && casilla(t, x, y) is Desvio && desvios > 0 {
        let d = casilla(t, x, y)->Desvio_0.direccion;
        tramo(
            t,
            x + d.dx(),
            y + d.dy(),
            d.dx(),
            d.dy(),
            alcance,
            alcance,
            especial,
            (desvios - 1) as nat,
        )
    } else {
        Seq::empty()
    }
}

/// A blast never reports more cells than its range allows, however often it
/// is turned, and every cell that it reports is on the board and is empty
/// or holds an enemy or a bomb: no deflector, rock or wall is ever reported.
pub proof fn lema_tramo_acotado(
    t: Tablero,
    x: int,
    y: int,
    dx: int,
    dy: int,
    pasos: nat,
    alcance: nat,
    especial: bool,
    desvios: nat,
)
    requires
        valido(t),
    ensures
        tramo(t, x, y, dx, dy, pasos, alcance, especial, desvios).len() <= alcance,
        forall|i: int|
            0 <= i < tramo(t, x, y, dx, dy, pasos, alcance, especial, desvios).len()
                ==> alcanzable_en(
                t,
                (#[trigger] tramo(t, x, y, dx, dy, pasos, alcance, especial, desvios)[i]).x as int,
                tramo(t, x, y, dx, dy, pasos, alcance, especial, desvios)[i].y as int,
            ),
    decreases alcance, desvios, pasos,
{
    let nx = x + dx;
    let ny = y + dy;
    if pasos == 0 || alcance == 0 || !dentro(t, nx, ny) {
    } else {
        match casilla(t, nx, ny) {
            Casilla::Pared(_) => {},
            Casilla::Piedra(_) => {
                if especial {
                    lema_tramo_acotado(
                        t,
                        nx,
                        ny,
                        dx,
                        dy,
                        (pasos - 1) as nat,
                        alcance,
                        especial,
                        desvios,
                    );
                }
            },
            Casilla::Desvio(d) => {
                if desvios > 0 {
                    lema_tramo_acotado(
                        t,
                        nx + d.direccion.dx(),
                        ny + d.direccion.dy(),
                        d.direccion.dx(),
                        d.direccion.dy(),
                        alcance,
                        alcance,
                        especial,
                        (desvios - 1) as nat,
                    );
                }
            },
            _ => {
                lema_tramo_acotado(
                    t,
                    nx,
                    ny,
                    dx,
                    dy,
                    (pasos - 1) as nat,
                    (alcance - 1) as nat,
                    especial,
                    limite_desvios(t),
                );
            },
        }
    }
}

/// The limit on turns in a row only ever cuts a path short: with a higher
/// limit a blast reports the same cells, and possibly more after them.
pub proof fn lema_limite_solo_corta(
    t: Tablero,
    x: int,
    y: int,
    dx: int,
    dy: int,
    pasos: nat,
    alcance: nat,
    especial: bool,
    desvios: nat,
    mas_desvios: nat,
)
    requires
        desvios <= mas_desvios,
    ensures
        tramo(t, x, y, dx, dy, pasos, alcance, especial, desvios).is_prefix_of(
            tramo(t, x, y, dx, dy, pasos, alcance, especial, mas_desvios),
        ),
    decreases alcance, desvios, pasos,
{
    let nx = x + dx;
    let ny = y + dy;
    if pasos == 0 || alcance == 0 || !dentro(t, nx, ny) {
    } else {
        match casilla(t, nx, ny) {
            Casilla::Piedra(_) => {
                if especial {
                    lema_limite_solo_corta(
                        t,
                        nx,
                        ny,
                        dx,
                        dy,
                        (pasos - 1) as nat,
                        alcance,
                        especial,
                        desvios,
                        mas_desvios,
                    );
                }
            },
            Casilla::Desvio(d) => {
                if desvios > 0 {
                    lema_limite_solo_corta(
                        t,
                        nx + d.direccion.dx(),
                        ny + d.direccion.dy(),
                        d.direccion.dx(),
                        d.direccion.dy(),
                        alcance,
                        alcance,
                        especial,
                        (desvios - 1) as nat,
                        (mas_desvios - 1) as nat,
                    );
                }
            },
            _ => {},
        }
    }
}

/// The `i`-th cell from `(x, y)` in the direction `(dx, dy)` is on the board
/// and is empty or holds an enemy or a bomb.
pub open spec fn libre_en(t: Tablero, x: int, y: int, dx: int, dy: int, i: int) -> bool {
    alcanzable_en(t, x + i * dx, y + i * dy)
}

/// The first `n` cells from `(x, y)` in the direction `(dx, dy)` are on the
/// board, and each is empty or holds an enemy or a bomb.
pub open spec fn libre(t: Tablero, x: int, y: int, dx: int, dy: int, n: nat) -> bool {
    forall|i: int| 1 <= i <= n ==> #[trigger] libre_en(t, x, y, dx, dy, i)
}

/// The first `n` cells from `(x, y)` in the direction `(dx, dy)`, nearest
/// first; `(x, y)` itself is not among them.
pub open spec fn recta(x: int, y: int, dx: int, dy: int, n: nat) -> Seq<Coordenada> {
    Seq::new(
        n,
        |i: int| Coordenada { x: (x + (i + 1) * dx) as usize, y: (y + (i + 1) * dy) as usize },
    )
}

/// A blast ends at the cell `(x, y)`: the cell is off the board, or holds a
/// wall, or holds a rock and the blast is not a special one.
pub open spec fn cierra(t: Tablero, x: int, y: int, especial: bool) -> bool {
    ||| !dentro(t, x, y)
    ||| casilla(t, x, y) is Pared
    ||| (casilla(t, x, y) is Piedra && !especial)
}

/// Wherever a blast stands and whatever it has left, it reports nothing
/// more when the next cell in its direction ends it: no wall is gone
/// through, special or not, and no rock by a blast that is not special.
pub proof fn lema_tramo_cerrado(
    t: Tablero,
    x: int,
    y: int,
    dx: int,
    dy: int,
    pasos: nat,
    alcance: nat,
    especial: bool,
    desvios: nat,
)
    requires
        cierra(t, x + dx, y + dy, especial),
    ensures
        tramo(t, x, y, dx, dy, pasos, alcance, especial, desvios) == Seq::<Coordenada>::empty(),
{
}

/// Wherever a special blast stands, when the next cell in its direction
/// holds a rock it goes on from the rock with one step fewer: the rock is
/// not reported, and the number of cells that the blast may still report
/// stays as it is.
pub proof fn lema_tramo_por_piedra(
    t: Tablero,
    x: int,
    y: int,
    dx: int,
    dy: int,
    pasos: nat,
    alcance: nat,
    desvios: nat,
)
    requires
        dentro(t, x + dx, y + dy),
        casilla(t, x + dx, y + dy) is Piedra,
        pasos > 0,
        alcance > 0,
    ensures
        tramo(t, x, y, dx, dy, pasos, alcance, true, desvios) == tramo(
            t,
            x + dx,
            y + dy,
            dx,
            dy,
            (pasos - 1) as nat,
            alcance,
            true,
            desvios,
        ),
{
}

/// Wherever a blast stands, a deflector in the next cell is not reported:
/// the blast goes on from the cell next to the deflector in the deflector's
/// direction, and may report as many cells as before.
pub proof fn lema_tramo_por_desvio(
    t: Tablero,
    x: int,
    y: int,
    dx: int,
    dy: int,
    pasos: nat,
    alcance: nat,
    especial: bool,
    desvios: nat,
)
    requires
        valido(t),
        dentro(t, x + dx, y + dy),
        casilla(t, x + dx, y + dy) is Desvio,
        pasos > 0,
        alcance > 0,
    ensures
        tramo(t, x, y, dx, dy, pasos, alcance, especial, desvios) == desviado(
            t,
            x + dx,
            y + dy,
            alcance,
            especial,
            desvios,
        ),
        desviado(t, x + dx, y + dy, alcance, especial, desvios).len() <= alcance,
{
    if desvios > 0 {
        let d = casilla(t, x + dx, y + dy)->Desvio_0.direccion;
        lema_tramo_acotado(
            t,
            x + dx + d.dx(),
            y + dy + d.dy(),
            d.dx(),
            d.dy(),
            alcance,
            alcance,
            especial,
            (desvios - 1) as nat,
        );
    }
}

/// Over `n` cells that are free, a blast with at least `n` steps and `n`
/// cells to report reports exactly those cells, and goes on from the last
/// of them with what is left.
pub proof fn lema_tramo_libre(
    t: Tablero,
    x: int,
    y: int,
    dx: int,
    dy: int,
    n: nat,
    pasos: nat,
    alcance: nat,
    especial: bool,
    desvios: nat,
)
    requires
        valido(t),
        libre(t, x, y, dx, dy, n),
        n <= pasos,
        n <= alcance,
    ensures
        tramo(t, x, y, dx, dy, pasos, alcance, especial, desvios) == recta(x, y, dx, dy, n)
            + tramo(
            t,
            x + n * dx,
            y + n * dy,
            dx,
            dy,
            (pasos - n) as nat,
            (alcance - n) as nat,
            especial,
            if n == 0 {
                desvios
            } else {
                limite_desvios(t)
            },
        ),
    decreases n,
{
    let completo = tramo(t, x, y, dx, dy, pasos, alcance, especial, desvios);
    if n == 0 {
        assert(x + 0 * dx == x && y + 0 * dy == y);
        assert(recta(x, y, dx, dy, 0) + completo =~= completo);
    } else {
        let nx = x + dx;
        let ny = y + dy;
        let m = (n - 1) as nat;
        assert(libre_en(t, x, y, dx, dy, 1));
        assert(x + 1 * dx == nx && y + 1 * dy == ny);
        assert forall|i: int| 1 <= i <= m implies #[trigger] libre_en(t, nx, ny, dx, dy, i) by {
            assert(libre_en(t, x, y, dx, dy, i + 1));
            assert(x + (i + 1) * dx == nx + i * dx) by (nonlinear_arith)
                requires
                    nx == x + dx,
            ;
            assert(y + (i + 1) * dy == ny + i * dy) by (nonlinear_arith)
                requires
                    ny == y + dy,
            ;
        }
        lema_tramo_libre(
            t,
            nx,
            ny,
            dx,
            dy,
            m,
            (pasos - 1) as nat,
            (alcance - 1) as nat,
            especial,
            limite_desvios(t),
        );
        assert(nx + m * dx == x + n * dx) by (nonlinear_arith)
            requires
                nx == x + dx,
                m == n - 1,
        ;
        assert(ny + m * dy == y + n * dy) by (nonlinear_arith)
            requires
                ny == y + dy,
                m == n - 1,
        ;
        let c = Coordenada { x: nx as usize, y: ny as usize };
        let sigue = tramo(
            t,
            x + n * dx,
            y + n * dy,
            dx,
            dy,
            (pasos - n) as nat,
            (alcance - n) as nat,
            especial,
            limite_desvios(t),
        );
        assert(recta(x, y, dx, dy, n) =~= seq![c] + recta(nx, ny, dx, dy, m)) by {
            assert forall|i: int| 0 <= i < n implies recta(x, y, dx, dy, n)[i] == (seq![c] + recta(
                nx,
                ny,
                dx,
                dy,
                m,
            ))[i] by {
                if i > 0 {
                    assert(x + (i + 1) * dx == nx + (i - 1 + 1) * dx) by (nonlinear_arith)
                        requires
                            nx == x + dx,
                    ;
                    assert(y + (i + 1) * dy == ny + (i - 1 + 1) * dy) by (nonlinear_arith)
                        requires
                            ny == y + dy,
                    ;
                }
            }
        }
        assert(completo == seq![c] + (recta(nx, ny, dx, dy, m) + sigue));
        assert(seq![c] + (recta(nx, ny, dx, dy, m) + sigue) =~= (seq![c] + recta(
            nx,
            ny,
            dx,
            dy,
            m,
        )) + sigue);
    }
}

/// When the first `n` cells in its direction are free and the next one ends
/// the blast, the blast reports the free cells that its range reaches, and
/// nothing beyond.
pub proof fn lema_rayo_detenido(
    t: Tablero,
    x: int,
    y: int,
    dx: int,
    dy: int,
    n: nat,
    alcance: nat,
    especial: bool,
)
    requires
        valido(t),
        libre(t, x, y, dx, dy, n),
        cierra(t, x + (n + 1) * dx, y + (n + 1) * dy, especial),
    ensures
        rayo(t, x, y, dx, dy, alcance, especial) == recta(
            x,
            y,
            dx,
            dy,
            if alcance <= n {
                alcance
            } else {
                n
            },
        ),
{
    let k = if alcance <= n {
        alcance
    } else {
        n
    };
    assert(libre(t, x, y, dx, dy, k)) by {
        assert forall|i: int| 1 <= i <= k implies #[trigger] libre_en(t, x, y, dx, dy, i) by {
            assert(libre_en(t, x, y, dx, dy, i));
        }
    }
    lema_tramo_libre(t, x, y, dx, dy, k, alcance, alcance, especial, limite_desvios(t));
    assert(x + n * dx + dx == x + (n + 1) * dx) by (nonlinear_arith);
    assert(y + n * dy + dy == y + (n + 1) * dy) by (nonlinear_arith);
    let sigue = tramo(
        t,
        x + k * dx,
        y + k * dy,
        dx,
        dy,
        (alcance - k) as nat,
        (alcance - k) as nat,
        especial,
        limite_desvios(t),
    );
    assert(sigue =~= Seq::<Coordenada>::empty());
    assert(recta(x, y, dx, dy, k) + sigue =~= recta(x, y, dx, dy, k));
}

/// A wall is opaque. When the first `n` cells in the direction of a blast
/// are free and the next one holds a wall, the blast reports the free cells
/// that its range reaches and no cell beyond the wall, special or not.
pub proof fn lema_pared_opaca(
    t: Tablero,
    x: int,
    y: int,
    dx: int,
    dy: int,
    n: nat,
    alcance: nat,
    especial: bool,
)
    requires
        valido(t),
        libre(t, x, y, dx, dy, n),
        dentro(t, x + (n + 1) * dx, y + (n + 1) * dy),
        casilla(t, x + (n + 1) * dx, y + (n + 1) * dy) is Pared,
    ensures
        rayo(t, x, y, dx, dy, alcance, especial) == recta(
            x,
            y,
            dx,
            dy,
            if alcance <= n {
                alcance
            } else {
                n
            },
        ),
{
    lema_rayo_detenido(t, x, y, dx, dy, n, alcance, especial);
}

/// A rock stops a blast that is not special. When the first `n` cells in the
/// direction of the blast are free and the next one holds a rock, the blast
/// reports the free cells that its range reaches and no cell beyond the rock.
pub proof fn lema_piedra_detiene(
    t: Tablero,
    x: int,
    y: int,
    dx: int,
    dy: int,
    n: nat,
    alcance: nat,
)
    requires
        valido(t),
        libre(t, x, y, dx, dy, n),
        dentro(t, x + (n + 1) * dx, y + (n + 1) * dy),
        casilla(t, x + (n + 1) * dx, y + (n + 1) * dy) is Piedra,
    ensures
        rayo(t, x, y, dx, dy, alcance, false) == recta(
            x,
            y,
            dx,
            dy,
            if alcance <= n {
                alcance
            } else {
                n
            },
        ),
{
    lema_rayo_detenido(t, x, y, dx, dy, n, alcance, false);
}

/// A special blast goes through a rock without reporting it. When the first
/// `n` cells in its direction are free, the next one holds a rock and its
/// range reaches beyond those `n` cells, the blast reports the free cells
/// and then goes on from the rock: the step onto the rock is spent, but the
/// rock is not among the cells reported and does not count against the
/// cells that the blast may still report.
pub proof fn lema_piedra_atravesada(
    t: Tablero,
    x: int,
    y: int,
    dx: int,
    dy: int,
    n: nat,
    alcance: nat,
)
    requires
        valido(t),
        libre(t, x, y, dx, dy, n),
        dentro(t, x + (n + 1) * dx, y + (n + 1) * dy),
        casilla(t, x + (n + 1) * dx, y + (n + 1) * dy) is Piedra,
        n < alcance,
    ensures
        rayo(t, x, y, dx, dy, alcance, true) == recta(x, y, dx, dy, n) + tramo(
            t,
            x + (n + 1) * dx,
            y + (n + 1) * dy,
            dx,
            dy,
            (alcance - n - 1) as nat,
            (alcance - n) as nat,
            true,
            limite_desvios(t),
        ),
{
    lema_tramo_libre(t, x, y, dx, dy, n, alcance, alcance, true, limite_desvios(t));
    assert(x + n * dx + dx == x + (n + 1) * dx) by (nonlinear_arith);
    assert(y + n * dy + dy == y + (n + 1) * dy) by (nonlinear_arith);
}

/// How many cells lie between `(x, y)` and the edge of the board in the
/// direction `d`.
pub open spec fn hasta_el_borde(t: Tablero, x: int, y: int, d: Direccion) -> nat
    recommends
        dentro(t, x, y),
{
    match d {
        Direccion::Arriba => y as nat,
        Direccion::Abajo => (t.len() - 1 - y) as nat,
        Direccion::Izquierda => x as nat,
        Direccion::Derecha => (t.len() - 1 - x) as nat,
    }
}

/// No cell of the board holds a rock, a wall or a deflector.
pub open spec fn sin_obstaculos(t: Tablero) -> bool {
    forall|x: int, y: int| dentro(t, x, y) ==> #[trigger] casilla(t, x, y).alcanzable()
}

/// The smaller of two numbers.
pub open spec fn menor(a: nat, b: nat) -> nat {
    if a <= b {
        a
    } else {
        b
    }
}

/// On a board without rocks, walls and deflectors, a blast from a cell of
/// the board reports the cells in its direction one after the other, as
/// many as its range, or all of them up to the edge of the board where that
/// is nearer.
pub proof fn lema_rayo_sin_obstaculos(
    t: Tablero,
    x: int,
    y: int,
    d: Direccion,
    alcance: nat,
    especial: bool,
)
    requires
        valido(t),
        sin_obstaculos(t),
        dentro(t, x, y),
    ensures
        rayo(t, x, y, d.dx(), d.dy(), alcance, especial) == recta(
            x,
            y,
            d.dx(),
            d.dy(),
            menor(alcance, hasta_el_borde(t, x, y, d)),
        ),
        rayo(t, x, y, d.dx(), d.dy(), alcance, especial).len() == menor(
            alcance,
            hasta_el_borde(t, x, y, d),
        ),
{
    let n = hasta_el_borde(t, x, y, d);
    let dx = d.dx();
    let dy = d.dy();
    assert forall|i: int| 1 <= i <= n implies #[trigger] libre_en(t, x, y, dx, dy, i) by {
        assert(dentro(t, x + i * dx, y + i * dy));
        assert(casilla(t, x + i * dx, y + i * dy).alcanzable());
    }
    assert(!dentro(t, x + (n + 1) * dx, y + (n + 1) * dy));
    lema_rayo_detenido(t, x, y, dx, dy, n, alcance, especial);
}

} // verus!
