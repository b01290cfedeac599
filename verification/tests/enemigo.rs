use bomberman::modelo::coordenada::Coordenada;
use bomberman::modelo::enemigo::Enemigo;

#[test]
fn test_enemigo_crear() {
    let enemigo = Enemigo::crear(0, 0, 1);
    assert_eq!(enemigo.x, 0);
    assert_eq!(enemigo.y, 0);
    assert_eq!(enemigo.vida, 1);
}

#[test]
fn test_enemigo_descontar_vida() {
    let mut enemigo = Enemigo::crear(0, 0, 2);
    enemigo.descontar_vida(1);
    assert_eq!(enemigo.vida, 1);
    enemigo.descontar_vida(1);
    assert_eq!(enemigo.vida, 0);
}

#[test]
fn descontar_mas_que_la_vida_deja_cero() {
    let mut enemigo = Enemigo::crear(3, 4, 2);
    enemigo.descontar_vida(7);
    assert_eq!(enemigo.vida, 0);
    assert_eq!(enemigo.coordenadas(), Coordenada { x: 3, y: 4 });
}

#[test]
fn un_enemigo_nuevo_no_fue_impactado() {
    let enemigo = Enemigo::crear(0, 0, 1);
    assert!(!enemigo.ya_impactado(0, 0));
    assert!(enemigo.bombas_impactadas.is_empty());
}

#[test]
fn recibir_impacto_recuerda_la_bomba_una_vez() {
    let mut enemigo = Enemigo::crear(0, 0, 3);
    enemigo.recibir_impacto(1, 2);
    assert!(enemigo.ya_impactado(1, 2));
    assert!(!enemigo.ya_impactado(2, 1));
    enemigo.recibir_impacto(1, 2);
    enemigo.recibir_impacto(2, 1);
    assert_eq!(
        enemigo.bombas_impactadas,
        vec![Coordenada { x: 1, y: 2 }, Coordenada { x: 2, y: 1 }]
    );
    assert_eq!(enemigo.vida, 3);
}

#[test]
fn dos_enemigos_son_iguales_sin_importar_el_orden_de_las_bombas() {
    let mut uno = Enemigo::crear(1, 1, 4);
    let mut otro = Enemigo::crear(1, 1, 4);
    assert_eq!(uno, otro);
    uno.recibir_impacto(0, 1);
    assert_ne!(uno, otro);
    uno.recibir_impacto(2, 1);
    otro.recibir_impacto(2, 1);
    assert_ne!(uno, otro);
    assert_ne!(otro, uno);
    otro.recibir_impacto(0, 1);
    assert_eq!(uno, otro);
    assert_ne!(uno.bombas_impactadas, otro.bombas_impactadas);
    otro.descontar_vida(1);
    assert_ne!(uno, otro);
    assert_ne!(Enemigo::crear(1, 1, 4), Enemigo::crear(1, 2, 4));
    assert_ne!(Enemigo::crear(1, 1, 4), Enemigo::crear(2, 1, 4));
}
