use vstd::prelude::*;
use super::coordenada::Coordenada;
use super::direccion::Direccion;
use super::rayo::{desviado, lema_tramo_acotado, limite_desvios, rayo, tramo};
use super::tablero::{
    alcanzable_en, atacada, casilla, dentro, destruida, enemigos_vivos, valido, Tablero,
};
use super::tile::{Casilla, Tile};

verus! {

/// The square board.
#[derive(Debug, Clone, PartialEq)]
pub struct Mapa {
    pub tiles: Vec<Vec<Tile>>,
    pub side_size: usize,
}

impl View for Mapa {
    type V = Tablero;

    open spec fn view(&self) -> Tablero {
        Seq::new(
            self.tiles@.len(),
            |y: int| Seq::new(self.tiles@[y]@.len(), |x: int| self.tiles@[y]@[x]@),
        )
    }
}

impl Mapa {
    /// The board is square, `side_size` cells a side, and every enemy on it
    /// is alive and records no bomb twice.
    pub open spec fn wf(&self) -> bool {
        &&& self.tiles@.len() == self.side_size
        &&& forall|y: int|
            0 <= y < self.tiles@.len() ==> (#[trigger] self.tiles@[y])@.len() == self.side_size
        &&& forall|y: int, x: int|
            0 <= y < self.tiles@.len() && 0 <= x < self.tiles@[y]@.len()
                ==> (#[trigger] self.tiles@[y]@[x]).wf()
    }

    /// The board of a well-formed map is square and of a size that a machine
    /// can count, and every enemy on it is alive.
    pub proof fn lema_valido(&self)
        requires
            self.wf(),
        ensures
            valido(self@),
            enemigos_vivos(self@),
            self@.len() == self.side_size,
    {
        assert forall|x: int, y: int| dentro(self@, x, y) implies (#[trigger] casilla(
            self@,
            x,
            y,
        )).viva() by {
            assert(self.tiles@[y]@[x].wf());
        }
    }

    /// The board without any cell.
    pub fn crear() -> (m: Mapa)
        ensures
            m.wf(),
            m.side_size == 0,
            m@ == Seq::<Seq<Casilla>>::empty(),
    {
        let m = Mapa { tiles: Vec::new(), side_size: 0 };
        assert(m@ =~= Seq::<Seq<Casilla>>::empty());
        m
    }

    /// The tile at `(x_pos, y_pos)`, or `None` outside the board.
    pub fn obtener_tile(&self, x_pos: usize, y_pos: usize) -> (r: Option<&Tile>)
        requires
            self.wf(),
        ensures
            r is Some <==> dentro(self@, x_pos as int, y_pos as int),
            r matches Some(t) ==> *t == self.tiles@[y_pos as int]@[x_pos as int] && t@ == casilla(
                self@,
                x_pos as int,
                y_pos as int,
            ) && t.wf(),
    {
        if x_pos >= self.side_size || y_pos >= self.side_size {
            return None;
        }
        Some(&self.tiles[y_pos][x_pos])
    }

    /// The tile at `(x_pos, y_pos)`, to be changed in place, or `None` outside
    /// the board. Whatever the caller writes through it is what that cell
    /// holds afterwards; no other cell changes.
    pub fn obtener_tile_mut(&mut self, x_pos: usize, y_pos: usize) -> (r: Option<&mut Tile>)
        requires
            old(self).wf(),
        ensures
            r is Some <==> dentro(old(self)@, x_pos as int, y_pos as int),
            r is None ==> *final(self) == *old(self),
            r matches Some(t) ==> {
                &&& *t == old(self).tiles@[y_pos as int]@[x_pos as int]
                &&& final(self).side_size == old(self).side_size
                &&& final(self).tiles@.len() == old(self).tiles@.len()
                &&& forall|y: int|
                    0 <= y < old(self).tiles@.len() && y != y_pos ==> final(self).tiles@[y]
                        == old(self).tiles@[y]
                &&& final(self).tiles@[y_pos as int]@ == old(self).tiles@[y_pos as int]@.update(
                    x_pos as int,
                    *final(t),
                )
            },
    {
        if x_pos >= self.side_size || y_pos >= self.side_size {
            return None;
        }
        Some(&mut self.tiles[y_pos][x_pos])
    }

    /// Empties the cell at `(x_pos, y_pos)`; outside the board it does nothing.
    pub fn destruir_tile(&mut self, x_pos: usize, y_pos: usize)
        requires
            old(self).wf(),
        ensures
            final(self).wf(),
            final(self).side_size == old(self).side_size,
            final(self)@ == destruida(old(self)@, x_pos as int, y_pos as int),
    {
        if x_pos >= self.side_size || y_pos >= self.side_size {
            return ;
        }
        self.tiles[y_pos][x_pos] = Tile::Vacio;
        assert(self@ =~~= destruida(old(self)@, x_pos as int, y_pos as int));
    }

    /// The bomb at `(bomba_x, bomba_y)` deals `dmg` points of damage to the
    /// cell at `(x_pos, y_pos)`. A second attack by the same bomb on a
    /// surviving enemy changes nothing.
    pub fn atacar_enemigo(
        &mut self,
        bomba_x: usize,
        bomba_y: usize,
        x_pos: usize,
        y_pos: usize,
        dmg: u32,
    )
        requires
            old(self).wf(),
        ensures
            final(self).wf(),
            final(self).side_size == old(self).side_size,
            final(self)@ == atacada(
                old(self)@,
                bomba_x,
                bomba_y,
                x_pos as int,
                y_pos as int,
                dmg,
            ),
    {
        if let Some(Tile::Enemigo(enemigo)) = self.obtener_tile_mut(x_pos, y_pos) {
            if !enemigo.ya_impactado(bomba_x, bomba_y) {
                if enemigo.vida <= dmg {
                    self.destruir_tile(x_pos, y_pos);
                } else {
                    enemigo.recibir_impacto(bomba_x, bomba_y);
                    enemigo.descontar_vida(dmg);
                }
            }
        }
        assert(self@ =~~= atacada(
            old(self)@,
            bomba_x,
            bomba_y,
            x_pos as int,
            y_pos as int,
            dmg,
        ));
    }

    /// How many times in a row a blast is followed through deflectors.
    fn limite_desvios(&self) -> (n: u128)
        requires
            self.wf(),
        ensures
            n == limite_desvios(self@),
    {
        let lado: u128 = self.side_size as u128;
        assert(lado * lado <= 0xffff_ffff_ffff_ffff * 0xffff_ffff_ffff_ffff) by (nonlinear_arith)
            requires
                0 <= lado <= 0xffff_ffff_ffff_ffff,
        ;
        lado * lado
    }

    /// Whether `(x, y)` lies outside the board.
    fn esta_fuera_de_rango(&self, x: i128, y: i128) -> (r: bool)
        requires
            self.wf(),
        ensures
            r == !dentro(self@, x as int, y as int),
    {
        x < 0 || x >= self.side_size as i128 || y < 0 || y >= self.side_size as i128
    }

    /// The tile at `(x_pos, y_pos)` if a blast can enter that cell: the cell
    /// is on the board and holds neither a wall nor, unless `especial` is
    /// set, a rock.
    fn chequear_tile(&self, x_pos: usize, y_pos: usize, especial: bool) -> (r: Option<&Tile>)
        requires
            self.wf(),
        ensures
            r is Some <==> {
                &&& dentro(self@, x_pos as int, y_pos as int)
                &&& !(casilla(self@, x_pos as int, y_pos as int) is Pared)
                &&& (especial || !(casilla(self@, x_pos as int, y_pos as int) is Piedra))
            },
            r matches Some(t) ==> t@ == casilla(self@, x_pos as int, y_pos as int),
    {
        if let Some(tile) = self.obtener_tile(x_pos, y_pos) {
            match tile {
                Tile::Pared(_) => None,
                Tile::Piedra(_) => if especial {
                    Some(tile)
                } else {
                    None
                },
                _ => Some(tile),
            }
        } else {
            None
        }
    }

    /// The cells that a blast of range `alcance` reports from
    /// `(x_pos, y_pos)` in the direction `(dx, dy)`, in the order in which it
    /// reaches them.
    pub fn buscar_en_direccion(
        &self,
        x_pos: usize,
        y_pos: usize,
        alcance: usize,
        especial: bool,
        dx: i32,
        dy: i32,
    ) -> (r: Vec<Coordenada>)
        requires
            self.wf(),
        ensures
            r@ == rayo(
                self@,
                x_pos as int,
                y_pos as int,
                dx as int,
                dy as int,
                alcance as nat,
                especial,
            ),
            r@.len() <= alcance,
            forall|i: int|
                0 <= i < r@.len() ==> alcanzable_en(self@, (#[trigger] r@[i]).x as int, r@[i].y as int),
    {
        proof {
            lema_tramo_acotado(
                self@,
                x_pos as int,
                y_pos as int,
                dx as int,
                dy as int,
                alcance as nat,
                alcance as nat,
                especial,
                limite_desvios(self@),
            );
        }
        let desvios = self.limite_desvios();
        self.buscar_tramo(x_pos, y_pos, alcance, especial, dx, dy, desvios)
    }

    /// The cells that a blast reports from `(x_pos, y_pos)` when it may
    /// report `alcance` cells and may be turned `desvios` times before it
    /// reports the first.
    fn buscar_tramo(
        &self,
        x_pos: usize,
        y_pos: usize,
        alcance: usize,
        especial: bool,
        dx: i32,
        dy: i32,
        desvios: u128,
    ) -> (r: Vec<Coordenada>)
        requires
            self.wf(),
        ensures
            r@ == tramo(
                self@,
                x_pos as int,
                y_pos as int,
                dx as int,
                dy as int,
                alcance as nat,
                alcance as nat,
                especial,
                desvios as nat,
            ),
        decreases alcance, desvios, 1int,
    {
        let limite = self.limite_desvios();
        let mut tiles_encontradas: Vec<Coordenada> = Vec::new();
        let mut x: usize = x_pos;
        let mut y: usize = y_pos;
        let mut restantes: u128 = desvios;
        let mut pasos: usize = 0;
        while pasos < alcance
            invariant
                self.wf(),
                limite == limite_desvios(self@),
                pasos <= alcance,
                tiles_encontradas@.len() <= pasos,
                restantes == desvios || restantes == limite,
                restantes == desvios || tiles_encontradas@.len() > 0,
                tramo(
                    self@,
                    x_pos as int,
                    y_pos as int,
                    dx as int,
                    dy as int,
                    alcance as nat,
                    alcance as nat,
                    especial,
                    desvios as nat,
                ) == tiles_encontradas@ + tramo(
                    self@,
                    x as int,
                    y as int,
                    dx as int,
                    dy as int,
                    (alcance - pasos) as nat,
                    (alcance - tiles_encontradas@.len()) as nat,
                    especial,
                    restantes as nat,
                ),
            decreases alcance - pasos,
        {
            let ghost antes = tiles_encontradas@;
            let nx: i128 = x as i128 + dx as i128;
            let ny: i128 = y as i128 + dy as i128;
            if self.esta_fuera_de_rango(nx, ny) {
                assert(antes + Seq::<Coordenada>::empty() =~= antes);
                return tiles_encontradas;
            }
            match self.chequear_tile(nx as usize, ny as usize, especial) {
                None => {
                    assert(antes + Seq::<Coordenada>::empty() =~= antes);
                    return tiles_encontradas;
                },
                Some(Tile::Desvio(_)) => {
                    let faltante = alcance - tiles_encontradas.len();
                    let mut desviadas = self.desviar(
                        nx as usize,
                        ny as usize,
                        faltante,
                        especial,
                        restantes,
                    );
                    tiles_encontradas.append(&mut desviadas);
                    return tiles_encontradas;
                },
                Some(Tile::Piedra(_)) => {},
                Some(_) => {
                    let c = Coordenada { x: nx as usize, y: ny as usize };
                    tiles_encontradas.push(c);
                    restantes = limite;
                    proof {
                        let resto = tramo(
                            self@,
                            nx as int,
                            ny as int,
                            dx as int,
                            dy as int,
                            (alcance - pasos - 1) as nat,
                            (alcance - antes.len() - 1) as nat,
                            especial,
                            limite as nat,
                        );
                        assert(antes + (seq![c] + resto) =~= antes.push(c) + resto);
                    }
                },
            }
            x = nx as usize;
            y = ny as usize;
            pasos += 1;
        }
        assert(tiles_encontradas@ + Seq::<Coordenada>::empty() =~= tiles_encontradas@);
        tiles_encontradas
    }

    /// The cells that a blast reports after the deflector at
    /// `(x_pos, y_pos)` has turned it, with `alcance` cells left to report.
    fn desviar(
        &self,
        x_pos: usize,
        y_pos: usize,
        alcance: usize,
        especial: bool,
        desvios: u128,
    ) -> (r: Vec<Coordenada>)
        requires
            self.wf(),
        ensures
            r@ == desviado(
                self@,
                x_pos as int,
                y_pos as int,
                alcance as nat,
                especial,
                desvios as nat,
            ),
        decreases alcance, desvios, 0int,
    {
        if desvios == 0 {
            return Vec::new();
        }
        if let Some(Tile::Desvio(desvio)) = self.obtener_tile(x_pos, y_pos) {
            match desvio.direccion {
                Direccion::Arriba => {
                    if y_pos == 0 {
                        return Vec::new();
                    }
                    return self.buscar_tramo(x_pos, y_pos - 1, alcance, especial, 0, -1, desvios - 1);
                },
                Direccion::Abajo => {
                    return self.buscar_tramo(x_pos, y_pos + 1, alcance, especial, 0, 1, desvios - 1);
                },
                Direccion::Izquierda => {
                    if x_pos == 0 {
                        return Vec::new();
                    }
                    return self.buscar_tramo(x_pos - 1, y_pos, alcance, especial, -1, 0, desvios - 1);
                },
                Direccion::Derecha => {
                    return self.buscar_tramo(x_pos + 1, y_pos, alcance, especial, 1, 0, desvios - 1);
                },
            }
        }
        Vec::new()
    }
}

} // verus!
