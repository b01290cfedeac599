//! The pieces of the board and the board itself.

pub mod coordenada;
pub mod direccion;
pub mod bomba;
pub mod desvio;
pub mod obstaculo;
pub mod enemigo;
pub mod tile;
pub mod tablero;
pub mod mapa;
pub mod rayo;
pub mod fabrica;
