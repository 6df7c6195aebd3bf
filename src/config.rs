use vstd::prelude::*;

verus! {

/// One entry of the menu: what it is called, the key that selects it, the
/// command to run and, optionally, the arguments to hand to it as they are.
#[derive(Debug)]
pub struct App {
    pub name: String,
    pub cmd: String,
    pub key: String,
    pub args: Option<Vec<String>>,
}

/// The menu: its entries in the order they are shown.
#[derive(Debug)]
pub struct Config {
    pub apps: Vec<App>,
}

} // verus!
