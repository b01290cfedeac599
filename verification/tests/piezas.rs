use bomberman::modelo::bomba::Bomba;
use bomberman::modelo::coordenada::Coordenada;
use bomberman::modelo::desvio::Desvio;
use bomberman::modelo::direccion::Direccion;
use bomberman::modelo::enemigo::Enemigo;
use bomberman::modelo::fabrica::crear_pieza;
use bomberman::modelo::obstaculo::Obstaculo;
use bomberman::modelo::tile::Tile;
use bomberman::texto::digito;

#[test]
fn test_crear_pieza() {
    let tile = crear_pieza("F", 0, 0);
    assert_eq!(tile, Ok(Tile::Enemigo(Enemigo::crear(0, 0, 1))));

    let tile = crear_pieza("Fx", 0, 0);
    assert_eq!(tile, Err("Los enemigos deben tener vida".to_string()));

    let tile = crear_pieza("F2", 0, 0);
    assert_eq!(tile, Ok(Tile::Enemigo(Enemigo::crear(0, 0, 2))));

    let tile = crear_pieza("B", 0, 0);
    assert_eq!(tile, Err("Una bomba debe tener radio, B".to_string()));

    let tile = crear_pieza("B2", 0, 0);
    assert_eq!(tile, Ok(Tile::BombaNormal(Bomba::crear(0, 0, 2, false))));

    let tile = crear_pieza("S2", 0, 0);
    assert_eq!(tile, Ok(Tile::BombaEspecial(Bomba::crear(0, 0, 2, true))));

    let tile = crear_pieza("R", 0, 0);
    assert_eq!(tile, Ok(Tile::Piedra(Obstaculo::crear(0, 0, true))));

    let tile = crear_pieza("W", 0, 0);
    assert_eq!(tile, Ok(Tile::Pared(Obstaculo::crear(0, 0, false))));

    let tile = crear_pieza("D", 0, 0);
    assert_eq!(tile.is_err(), true);

    let tile = crear_pieza("DU", 0, 0);
    assert_eq!(
        tile,
        Ok(Tile::Desvio(Desvio {
            x: 0,
            y: 0,
            direccion: Direccion::Arriba
        }))
    );

    let tile = crear_pieza("_", 0, 0);
    assert_eq!(tile, Ok(Tile::Vacio));
}

#[test]
fn crear_pieza_coloca_la_pieza_en_su_casilla() {
    assert_eq!(
        crear_pieza("F9", 4, 7),
        Ok(Tile::Enemigo(Enemigo::crear(4, 7, 9)))
    );
    assert_eq!(
        crear_pieza("S1", 2, 3),
        Ok(Tile::BombaEspecial(Bomba::crear(2, 3, 1, true)))
    );
    assert_eq!(
        crear_pieza("R", 5, 6),
        Ok(Tile::Piedra(Obstaculo { x: 5, y: 6, pasable: true }))
    );
}

#[test]
fn crear_pieza_lee_las_cuatro_direcciones() {
    let direcciones = [
        ("DU", Direccion::Arriba),
        ("DD", Direccion::Abajo),
        ("DL", Direccion::Izquierda),
        ("DR", Direccion::Derecha),
    ];
    for (texto, direccion) in direcciones {
        assert_eq!(
            crear_pieza(texto, 1, 2),
            Ok(Tile::Desvio(Desvio { x: 1, y: 2, direccion }))
        );
    }
}

#[test]
fn crear_pieza_solo_mira_los_dos_primeros_caracteres() {
    assert_eq!(
        crear_pieza("F12", 0, 0),
        Ok(Tile::Enemigo(Enemigo::crear(0, 0, 1)))
    );
    assert_eq!(crear_pieza("_x", 0, 0), Ok(Tile::Vacio));
    assert_eq!(
        crear_pieza("W3", 0, 0),
        Ok(Tile::Pared(Obstaculo::crear(0, 0, false)))
    );
}

#[test]
fn un_enemigo_sin_cifra_tiene_un_punto_de_vida() {
    assert_eq!(
        crear_pieza("F", 3, 2),
        Ok(Tile::Enemigo(Enemigo::crear(3, 2, 1)))
    );
    assert_eq!(crear_pieza("F", 3, 2), crear_pieza("F1", 3, 2));
    assert_eq!(
        crear_pieza("F ", 0, 0),
        Err("Los enemigos deben tener vida".to_string())
    );
}

#[test]
fn la_piedra_es_pasable_y_la_pared_no() {
    match crear_pieza("R", 1, 1) {
        Ok(Tile::Piedra(obstaculo)) => assert!(obstaculo.pasable),
        otro => panic!("{:?}", otro),
    }
    match crear_pieza("W", 1, 1) {
        Ok(Tile::Pared(obstaculo)) => assert!(!obstaculo.pasable),
        otro => panic!("{:?}", otro),
    }
}

#[test]
fn crear_pieza_dice_por_que_rechaza() {
    assert_eq!(
        crear_pieza("F0", 0, 0),
        Err("Un enemigo no puede tener vida negativa: F0".to_string())
    );
    assert_eq!(
        crear_pieza("Fx", 0, 0),
        Err("Los enemigos deben tener vida".to_string())
    );
    assert_eq!(
        crear_pieza("B0", 0, 0),
        Err("Una bomba no puede tener radio negativo: B0".to_string())
    );
    assert_eq!(
        crear_pieza("S0", 0, 0),
        Err("Una bomba no puede tener radio negativo: B0".to_string())
    );
    assert_eq!(
        crear_pieza("S", 0, 0),
        Err("Una bomba debe tener radio, B".to_string())
    );
    assert_eq!(
        crear_pieza("D", 0, 0),
        Err("Un desvio debe tener direccion, D".to_string())
    );
    assert_eq!(
        crear_pieza("DX", 0, 0),
        Err("Direccion invalida: DX".to_string())
    );
    assert_eq!(
        crear_pieza("Dñ", 0, 0),
        Err("Direccion invalida: Dñ".to_string())
    );
    assert_eq!(
        crear_pieza("X1", 0, 0),
        Err("No se pudo crear la pieza: >X1<".to_string())
    );
    assert_eq!(
        crear_pieza("", 0, 0),
        Err("No se pudo crear la pieza: ><".to_string())
    );
}

#[test]
fn digito_da_el_valor_de_las_cifras() {
    assert_eq!(digito('0'), Some(0));
    assert_eq!(digito('7'), Some(7));
    assert_eq!(digito('9'), Some(9));
    assert_eq!(digito('/'), None);
    assert_eq!(digito(':'), None);
    assert_eq!(digito('a'), None);
    assert_eq!(digito('٣'), None);
}

#[test]
fn las_piezas_dan_sus_coordenadas() {
    assert_eq!(
        Bomba::crear(2, 5, 3, true).coordenadas(),
        Coordenada { x: 2, y: 5 }
    );
    let bomba = Bomba::crear(2, 5, 3, true);
    assert_eq!(bomba.radio, 3);
    assert!(bomba.especial);
    let obstaculo = Obstaculo::crear(1, 2, true);
    assert_eq!(obstaculo, Obstaculo { x: 1, y: 2, pasable: true });
}

#[test]
fn char_direccion_da_la_letra() {
    let letras = [
        (Direccion::Arriba, 'U'),
        (Direccion::Abajo, 'D'),
        (Direccion::Izquierda, 'L'),
        (Direccion::Derecha, 'R'),
    ];
    for (direccion, letra) in letras {
        assert_eq!(Desvio { x: 0, y: 0, direccion }.char_direccion(), letra);
    }
}
