use vstd::prelude::*;
use super::coordenada::Coordenada;

verus! {

/// An enemy: it has health, and remembers which bombs have already harmed
/// it, so that no bomb harms it twice. Two enemies are equal when they are
/// in the same place, have the same health and have been harmed by the same
/// bombs, in whatever order.
#[derive(Debug, Clone)]
pub struct Enemigo {
    pub x: usize,
    pub y: usize,
    pub vida: u32,
    /// The coordinates of the bombs that have harmed this enemy, each once.
    pub bombas_impactadas: Vec<Coordenada>,
}

/// What an enemy is, mathematically: its fields, with the bombs that have
/// harmed it as a set.
pub struct EnemigoModelo {
    pub x: usize,
    pub y: usize,
    pub vida: u32,
    pub impactos: Set<Coordenada>,
}

impl View for Enemigo {
    type V = EnemigoModelo;

    open spec fn view(&self) -> EnemigoModelo {
        EnemigoModelo {
            x: self.x,
            y: self.y,
            vida: self.vida,
            impactos: self.bombas_impactadas@.to_set(),
        }
    }
}

impl PartialEq for Enemigo {
    fn eq(&self, other: &Enemigo) -> (r: bool) {
        let iguales = self.x == other.x && self.y == other.y && self.vida == other.vida
            && other.impactado_por_todas(&self.bombas_impactadas) && self.impactado_por_todas(
            &other.bombas_impactadas,
        );
        proof {
            if iguales {
                assert(self@.impactos =~= other@.impactos);
            }
        }
        iguales
    }
}

impl vstd::std_specs::cmp::PartialEqSpecImpl for Enemigo {
    open spec fn obeys_eq_spec() -> bool {
        true
    }

    open spec fn eq_spec(&self, other: &Enemigo) -> bool {
        self@ == other@
    }
}

/// The health left after `dmg` points of damage: never below zero.
pub open spec fn vida_tras(vida: u32, dmg: u32) -> u32 {
    if vida <= dmg {
        0
    } else {
        (vida - dmg) as u32
    }
}

impl Enemigo {
    /// No bomb is recorded twice.
    pub open spec fn wf(&self) -> bool {
        self.bombas_impactadas@.no_duplicates()
    }

    /// Builds an enemy that no bomb has harmed yet.
    pub fn crear(x: usize, y: usize, vida: u32) -> (e: Enemigo)
        ensures
            e.wf(),
            e@ == (EnemigoModelo { x, y, vida, impactos: Set::empty() }),
    {
        let e = Enemigo { x, y, vida, bombas_impactadas: Vec::new() };
        assert(e.bombas_impactadas@.to_set() =~= Set::<Coordenada>::empty());
        e
    }

    /// Takes `dmg` points of health away; the health stops at zero.
    pub fn descontar_vida(&mut self, dmg: u32)
        ensures
            final(self).vida == vida_tras(old(self).vida, dmg),
            final(self).x == old(self).x,
            final(self).y == old(self).y,
            final(self).bombas_impactadas == old(self).bombas_impactadas,
    {
        if self.vida <= dmg {
            self.vida = 0;
        } else {
            self.vida -= dmg;
        }
    }

    /// The coordinate the enemy was built with.
    pub fn coordenadas(&self) -> (c: Coordenada)
        ensures
            c == (Coordenada { x: self.x, y: self.y }),
    {
        Coordenada { x: self.x, y: self.y }
    }

    /// Records that the bomb at `(x, y)` has harmed this enemy.
    pub fn recibir_impacto(&mut self, x: usize, y: usize)
        ensures
            final(self)@ == (EnemigoModelo {
                impactos: old(self)@.impactos.insert(Coordenada { x, y }),
                ..old(self)@
            }),
            old(self).wf() ==> final(self).wf(),
    {
        if !self.ya_impactado(x, y) {
            self.bombas_impactadas.push(Coordenada { x, y });
            proof {
                let antes = old(self).bombas_impactadas@;
                let c = Coordenada { x, y };
                assert(antes.push(c).to_set() =~= antes.to_set().insert(c)) by {
                    assert forall|d: Coordenada|
                        antes.push(c).to_set().contains(d) == antes.to_set().insert(c).contains(
                            d,
                        ) by {
                        if antes.push(c).contains(d) {
                            let i = choose|i: int|
                                0 <= i < antes.push(c).len() && antes.push(c)[i] == d;
                            if i < antes.len() {
                                assert(antes[i] == d);
                            }
                        }
                        if antes.contains(d) {
                            let i = choose|i: int| 0 <= i < antes.len() && antes[i] == d;
                            assert(antes.push(c)[i] == d);
                        }
                        if d == c {
                            assert(antes.push(c)[antes.len() as int] == c);
                        }
                    }
                }
            }
        } else {
            assert(old(self)@.impactos.insert(Coordenada { x, y }) =~= old(self)@.impactos);
        }
    }

    /// Whether each of `bombas` has already harmed this enemy.
    fn impactado_por_todas(&self, bombas: &Vec<Coordenada>) -> (r: bool)
        ensures
            r == bombas@.to_set().subset_of(self@.impactos),
    {
        let mut i: usize = 0;
        while i < bombas.len()
            invariant
                i <= bombas@.len(),
                forall|j: int| 0 <= j < i ==> self@.impactos.contains(#[trigger] bombas@[j]),
            decreases bombas@.len() - i,
        {
            let c = bombas[i];
            if !self.ya_impactado(c.x, c.y) {
                assert(bombas@.to_set().contains(bombas@[i as int]));
                return false;
            }
            i += 1;
        }
        true
    }

    /// Whether the bomb at `(x, y)` has already harmed this enemy.
    pub fn ya_impactado(&self, x: usize, y: usize) -> (r: bool)
        ensures
            r == self@.impactos.contains(Coordenada { x, y }),
    {
        let mut i: usize = 0;
        while i < self.bombas_impactadas.len()
            invariant
                i <= self.bombas_impactadas@.len(),
                forall|j: int| 0 <= j < i ==> self.bombas_impactadas@[j] != (Coordenada { x, y }),
            decreases self.bombas_impactadas@.len() - i,
        {
            let c = self.bombas_impactadas[i];
            if c.x == x && c.y == y {
                assert(self.bombas_impactadas@.contains(Coordenada { x, y }));
                return true;
            }
            i += 1;
        }
        false
    }
}

} // verus!
