//! Construction and validation of square bingo cards, plus the small
//! pieces of page decoration (a random fruit, a nonce, a CSP value).

pub mod grid;
pub mod page;
