use bomberman::modelo::bomba::Bomba;
use bomberman::modelo::coordenada::Coordenada;
use bomberman::modelo::desvio::Desvio;
use bomberman::modelo::direccion::Direccion;
use bomberman::modelo::enemigo::Enemigo;
use bomberman::modelo::mapa::Mapa;
use bomberman::modelo::obstaculo::Obstaculo;
use bomberman::modelo::tile::Tile;

fn vacio(lado: usize) -> Mapa {
    Mapa {
        tiles: vec![vec![Tile::Vacio; lado]; lado],
        side_size: lado,
    }
}

fn c(x: usize, y: usize) -> Coordenada {
    Coordenada { x, y }
}

#[test]
fn test_mapa_obtener_tile() {
    let mapa = Mapa {
        tiles: vec![
            vec![Tile::Vacio, Tile::Vacio],
            vec![Tile::Vacio, Tile::Vacio],
        ],
        side_size: 2,
    };
    assert_eq!(mapa.obtener_tile(0, 0), Some(&Tile::Vacio));
    assert_eq!(mapa.obtener_tile(1, 0), Some(&Tile::Vacio));
    assert_eq!(mapa.obtener_tile(0, 1), Some(&Tile::Vacio));
    assert_eq!(mapa.obtener_tile(1, 1), Some(&Tile::Vacio));
    assert_eq!(mapa.obtener_tile(2, 2), None);
}

#[test]
fn test_mapa_obtener_tile_mut() {
    let mut mapa = Mapa {
        tiles: vec![
            vec![Tile::Vacio, Tile::Vacio],
            vec![Tile::Vacio, Tile::Vacio],
        ],
        side_size: 2,
    };
    assert_eq!(mapa.obtener_tile_mut(0, 0), Some(&mut Tile::Vacio));
    assert_eq!(mapa.obtener_tile_mut(1, 0), Some(&mut Tile::Vacio));
    assert_eq!(mapa.obtener_tile_mut(0, 1), Some(&mut Tile::Vacio));
    assert_eq!(mapa.obtener_tile_mut(1, 1), Some(&mut Tile::Vacio));
    assert_eq!(mapa.obtener_tile_mut(2, 2), None);
}

#[test]
fn test_mapa_destruir_tile() {
    let mut mapa = Mapa {
        tiles: vec![
            vec![Tile::Vacio, Tile::Vacio],
            vec![Tile::Vacio, Tile::Vacio],
        ],
        side_size: 2,
    };
    mapa.destruir_tile(0, 0);
    assert_eq!(mapa.obtener_tile(0, 0), Some(&Tile::Vacio));
    mapa.destruir_tile(1, 0);
    assert_eq!(mapa.obtener_tile(1, 0), Some(&Tile::Vacio));
    mapa.destruir_tile(0, 1);
    assert_eq!(mapa.obtener_tile(0, 1), Some(&Tile::Vacio));
}

#[test]
fn mapa_test_buscar_tiles() {
    let mapa = Mapa {
        tiles: vec![
            vec![Tile::Vacio, Tile::Vacio, Tile::Vacio],
            vec![Tile::Vacio, Tile::Vacio, Tile::Vacio],
            vec![Tile::Vacio, Tile::Vacio, Tile::Vacio],
        ],
        side_size: 3,
    };
    let tiles = mapa.buscar_en_direccion(1, 2, 2, false, 0, -1);
    assert_eq!(tiles.len(), 2);
    assert_eq!(tiles[0], Coordenada { x: 1, y: 1 });
    assert_eq!(tiles[1], Coordenada { x: 1, y: 0 });
}

#[test]
fn crear_da_el_mapa_sin_casillas() {
    let mapa = Mapa::crear();
    assert_eq!(mapa.side_size, 0);
    assert!(mapa.tiles.is_empty());
    assert_eq!(mapa.obtener_tile(0, 0), None);
}

#[test]
fn obtener_tile_lee_columna_y_fila() {
    let mut mapa = vacio(3);
    mapa.tiles[2][0] = Tile::Piedra(Obstaculo::crear(0, 2, true));
    assert_eq!(
        mapa.obtener_tile(0, 2),
        Some(&Tile::Piedra(Obstaculo::crear(0, 2, true)))
    );
    assert_eq!(mapa.obtener_tile(2, 0), Some(&Tile::Vacio));
    assert_eq!(mapa.obtener_tile(3, 0), None);
    assert_eq!(mapa.obtener_tile(0, 3), None);
    assert_eq!(mapa.obtener_tile(usize::MAX, usize::MAX), None);
}

#[test]
fn obtener_tile_mut_deja_cambiar_una_sola_casilla() {
    let mut mapa = vacio(2);
    if let Some(tile) = mapa.obtener_tile_mut(1, 0) {
        *tile = Tile::Pared(Obstaculo::crear(1, 0, false));
    }
    assert_eq!(
        mapa.tiles,
        vec![
            vec![Tile::Vacio, Tile::Pared(Obstaculo::crear(1, 0, false))],
            vec![Tile::Vacio, Tile::Vacio],
        ]
    );
    assert_eq!(mapa.side_size, 2);
}

#[test]
fn destruir_tile_vacia_la_casilla_y_ninguna_otra() {
    let mut mapa = vacio(2);
    mapa.tiles[0][1] = Tile::Enemigo(Enemigo::crear(1, 0, 3));
    mapa.tiles[1][0] = Tile::BombaNormal(Bomba::crear(0, 1, 2, false));
    mapa.destruir_tile(1, 0);
    assert_eq!(
        mapa.tiles,
        vec![
            vec![Tile::Vacio, Tile::Vacio],
            vec![Tile::BombaNormal(Bomba::crear(0, 1, 2, false)), Tile::Vacio],
        ]
    );
    let antes = mapa.clone();
    mapa.destruir_tile(2, 0);
    mapa.destruir_tile(0, 2);
    assert_eq!(mapa, antes);
}

#[test]
fn atacar_enemigo_descuenta_y_recuerda_la_bomba() {
    let mut mapa = vacio(2);
    mapa.tiles[0][1] = Tile::Enemigo(Enemigo::crear(1, 0, 5));
    mapa.atacar_enemigo(0, 0, 1, 0, 2);
    match mapa.obtener_tile(1, 0) {
        Some(Tile::Enemigo(enemigo)) => {
            assert_eq!(enemigo.vida, 3);
            assert!(enemigo.ya_impactado(0, 0));
            assert!(!enemigo.ya_impactado(1, 1));
        }
        otro => panic!("{:?}", otro),
    }
}

#[test]
fn atacar_enemigo_dos_veces_con_la_misma_bomba_hiere_una_vez() {
    let mut mapa = vacio(2);
    mapa.tiles[0][1] = Tile::Enemigo(Enemigo::crear(1, 0, 5));
    mapa.atacar_enemigo(0, 0, 1, 0, 1);
    let tras_el_primero = mapa.clone();
    mapa.atacar_enemigo(0, 0, 1, 0, 1);
    mapa.atacar_enemigo(0, 0, 1, 0, 4);
    assert_eq!(mapa, tras_el_primero);
    mapa.atacar_enemigo(1, 1, 1, 0, 1);
    match mapa.obtener_tile(1, 0) {
        Some(Tile::Enemigo(enemigo)) => assert_eq!(enemigo.vida, 3),
        otro => panic!("{:?}", otro),
    }
}

#[test]
fn atacar_enemigo_lo_destruye_si_la_vida_no_alcanza() {
    let mut mapa = vacio(2);
    mapa.tiles[1][1] = Tile::Enemigo(Enemigo::crear(1, 1, 2));
    mapa.atacar_enemigo(0, 0, 1, 1, 2);
    assert_eq!(mapa, vacio(2));
    mapa.tiles[1][1] = Tile::Enemigo(Enemigo::crear(1, 1, 2));
    mapa.atacar_enemigo(0, 0, 1, 1, 9);
    assert_eq!(mapa, vacio(2));
}

#[test]
fn atacar_enemigo_no_toca_lo_que_no_es_enemigo() {
    let mut mapa = vacio(2);
    mapa.tiles[0][0] = Tile::BombaNormal(Bomba::crear(0, 0, 1, false));
    mapa.tiles[0][1] = Tile::Piedra(Obstaculo::crear(1, 0, true));
    let antes = mapa.clone();
    mapa.atacar_enemigo(1, 1, 0, 0, 1);
    mapa.atacar_enemigo(1, 1, 1, 0, 1);
    mapa.atacar_enemigo(1, 1, 0, 1, 1);
    mapa.atacar_enemigo(1, 1, 5, 5, 1);
    assert_eq!(mapa, antes);
}

#[test]
fn el_rayo_llega_hasta_su_alcance_o_hasta_el_borde() {
    let mapa = vacio(5);
    assert_eq!(
        mapa.buscar_en_direccion(2, 2, 1, false, 1, 0),
        vec![c(3, 2)]
    );
    assert_eq!(
        mapa.buscar_en_direccion(2, 2, 2, false, 1, 0),
        vec![c(3, 2), c(4, 2)]
    );
    assert_eq!(
        mapa.buscar_en_direccion(2, 2, 9, false, 1, 0),
        vec![c(3, 2), c(4, 2)]
    );
    assert_eq!(
        mapa.buscar_en_direccion(2, 2, 9, false, -1, 0),
        vec![c(1, 2), c(0, 2)]
    );
    assert_eq!(
        mapa.buscar_en_direccion(0, 0, 9, false, 0, -1),
        Vec::<Coordenada>::new()
    );
    assert_eq!(
        mapa.buscar_en_direccion(0, 0, 3, true, 0, 1),
        vec![c(0, 1), c(0, 2), c(0, 3)]
    );
    assert_eq!(
        mapa.buscar_en_direccion(2, 2, 0, false, 0, 1),
        Vec::<Coordenada>::new()
    );
}

#[test]
fn el_rayo_informa_enemigos_y_bombas_y_sigue() {
    let mut mapa = vacio(4);
    mapa.tiles[0][1] = Tile::Enemigo(Enemigo::crear(1, 0, 1));
    mapa.tiles[0][2] = Tile::BombaEspecial(Bomba::crear(2, 0, 1, true));
    assert_eq!(
        mapa.buscar_en_direccion(0, 0, 3, false, 1, 0),
        vec![c(1, 0), c(2, 0), c(3, 0)]
    );
}

#[test]
fn la_pared_detiene_todo_rayo() {
    let mut mapa = vacio(5);
    mapa.tiles[0][2] = Tile::Pared(Obstaculo::crear(2, 0, false));
    for especial in [false, true] {
        assert_eq!(
            mapa.buscar_en_direccion(0, 0, 4, especial, 1, 0),
            vec![c(1, 0)]
        );
    }
    mapa.tiles[0][1] = Tile::Pared(Obstaculo::crear(1, 0, true));
    for especial in [false, true] {
        assert_eq!(
            mapa.buscar_en_direccion(0, 0, 4, especial, 1, 0),
            Vec::<Coordenada>::new()
        );
    }
}

#[test]
fn la_piedra_detiene_al_rayo_normal() {
    let mut mapa = vacio(5);
    mapa.tiles[0][2] = Tile::Piedra(Obstaculo::crear(2, 0, true));
    assert_eq!(
        mapa.buscar_en_direccion(0, 0, 4, false, 1, 0),
        vec![c(1, 0)]
    );
}

#[test]
fn el_rayo_especial_atraviesa_la_piedra_sin_informarla() {
    let mut mapa = vacio(5);
    mapa.tiles[0][2] = Tile::Piedra(Obstaculo::crear(2, 0, true));
    assert_eq!(
        mapa.buscar_en_direccion(0, 0, 4, true, 1, 0),
        vec![c(1, 0), c(3, 0), c(4, 0)]
    );
    assert_eq!(
        mapa.buscar_en_direccion(0, 0, 3, true, 1, 0),
        vec![c(1, 0), c(3, 0)]
    );
    assert_eq!(
        mapa.buscar_en_direccion(0, 0, 2, true, 1, 0),
        vec![c(1, 0)]
    );
}

#[test]
fn el_desvio_cambia_la_direccion_y_conserva_el_alcance() {
    let mut mapa = vacio(5);
    mapa.tiles[0][2] = Tile::Desvio(Desvio { x: 2, y: 0, direccion: Direccion::Abajo });
    assert_eq!(
        mapa.buscar_en_direccion(0, 0, 3, false, 1, 0),
        vec![c(1, 0), c(2, 2), c(2, 3)]
    );
    assert_eq!(
        mapa.buscar_en_direccion(0, 0, 9, false, 1, 0),
        vec![c(1, 0), c(2, 2), c(2, 3), c(2, 4)]
    );
    assert_eq!(
        mapa.buscar_en_direccion(0, 0, 1, false, 1, 0),
        vec![c(1, 0)]
    );
}

#[test]
fn el_desvio_devuelve_lo_que_las_piedras_gastaron() {
    let mut mapa = vacio(5);
    mapa.tiles[0][1] = Tile::Piedra(Obstaculo::crear(1, 0, true));
    mapa.tiles[0][2] = Tile::Desvio(Desvio { x: 2, y: 0, direccion: Direccion::Abajo });
    assert_eq!(
        mapa.buscar_en_direccion(0, 0, 2, true, 1, 0),
        vec![c(2, 2), c(2, 3)]
    );
    assert_eq!(
        mapa.buscar_en_direccion(0, 0, 1, true, 1, 0),
        Vec::<Coordenada>::new()
    );
}

#[test]
fn el_desvio_en_el_borde_termina_el_rayo() {
    let mut mapa = vacio(3);
    mapa.tiles[0][1] = Tile::Desvio(Desvio { x: 1, y: 0, direccion: Direccion::Arriba });
    assert_eq!(
        mapa.buscar_en_direccion(1, 2, 5, false, 0, -1),
        vec![c(1, 1)]
    );
    mapa.tiles[0][1] = Tile::Desvio(Desvio { x: 1, y: 0, direccion: Direccion::Izquierda });
    assert_eq!(
        mapa.buscar_en_direccion(1, 2, 5, false, 0, -1),
        vec![c(1, 1)]
    );
    mapa.tiles[0][1] = Tile::Desvio(Desvio { x: 1, y: 0, direccion: Direccion::Derecha });
    assert_eq!(
        mapa.buscar_en_direccion(1, 2, 5, false, 0, -1),
        vec![c(1, 1)]
    );
    mapa.tiles[0][0] = Tile::Desvio(Desvio { x: 0, y: 0, direccion: Direccion::Izquierda });
    assert_eq!(
        mapa.buscar_en_direccion(0, 2, 5, false, 0, -1),
        vec![c(0, 1)]
    );
}

#[test]
fn el_desvio_puede_hacer_pasar_el_rayo_dos_veces_por_una_casilla() {
    let mut mapa = vacio(5);
    mapa.tiles[0][3] = Tile::Desvio(Desvio { x: 3, y: 0, direccion: Direccion::Izquierda });
    assert_eq!(
        mapa.buscar_en_direccion(0, 0, 4, false, 1, 0),
        vec![c(1, 0), c(2, 0), c(1, 0), c(0, 0)]
    );
}

#[test]
fn el_rayo_entre_desvios_enfrentados_termina() {
    let mut mapa = vacio(3);
    mapa.tiles[0][0] = Tile::Desvio(Desvio { x: 0, y: 0, direccion: Direccion::Derecha });
    mapa.tiles[0][2] = Tile::Desvio(Desvio { x: 2, y: 0, direccion: Direccion::Izquierda });
    assert_eq!(
        mapa.buscar_en_direccion(1, 0, 1, false, 1, 0),
        Vec::<Coordenada>::new()
    );
    assert_eq!(
        mapa.buscar_en_direccion(1, 0, 7, true, -1, 0),
        Vec::<Coordenada>::new()
    );
}

#[test]
fn el_rayo_nunca_informa_mas_casillas_que_su_alcance() {
    let mut mapa = vacio(4);
    mapa.tiles[0][3] = Tile::Desvio(Desvio { x: 3, y: 0, direccion: Direccion::Abajo });
    mapa.tiles[3][3] = Tile::Desvio(Desvio { x: 3, y: 3, direccion: Direccion::Izquierda });
    mapa.tiles[3][0] = Tile::Desvio(Desvio { x: 0, y: 3, direccion: Direccion::Arriba });
    for alcance in 0..12 {
        let tiles = mapa.buscar_en_direccion(0, 0, alcance, false, 1, 0);
        assert!(tiles.len() <= alcance);
        for tile in tiles {
            assert!(!matches!(
                mapa.obtener_tile(tile.x, tile.y),
                Some(Tile::Desvio(_)) | Some(Tile::Piedra(_)) | Some(Tile::Pared(_)) | None
            ));
        }
    }
    assert_eq!(
        mapa.buscar_en_direccion(0, 0, 5, false, 1, 0),
        vec![c(1, 0), c(2, 0), c(3, 2), c(1, 3), c(0, 1)]
    );
}

#[test]
fn el_rayo_acepta_cualquier_paso() {
    let mapa = vacio(5);
    assert_eq!(
        mapa.buscar_en_direccion(0, 0, 3, false, 2, 1),
        vec![c(2, 1), c(4, 2)]
    );
    assert_eq!(
        mapa.buscar_en_direccion(1, 1, 2, false, 0, 0),
        vec![c(1, 1), c(1, 1)]
    );
    assert_eq!(
        mapa.buscar_en_direccion(5, 2, 2, false, -1, 0),
        vec![c(4, 2), c(3, 2)]
    );
}
