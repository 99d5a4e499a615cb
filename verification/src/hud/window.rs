//! The HUD's windows: a factory that hands out copies of one window
//! description, and the manager that holds the factory.
use vstd::prelude::*;

verus! {

/// Hands out copies of a base window description `D`.
#[derive(Debug, Clone)]
pub struct WindowFactory<D> {
    pub base_window_descriptor: D,
}

impl<D: Clone> WindowFactory<D> {
    /// A copy of the base window description.
    pub fn create_window_descriptor(&self) -> (d: D)
        ensures
            cloned::<D>(self.base_window_descriptor, d),
    {
        self.base_window_descriptor.clone()
    }
}

/// Manages the windows made by a window factory.
#[derive(Debug, Clone)]
pub struct WindowManager<'factory, D> {
    pub window_factory: &'factory WindowFactory<D>,
}

impl<'factory, D> WindowManager<'factory, D> {
    /// A manager of the windows of the given factory.
    pub fn new(window_factory: &'factory WindowFactory<D>) -> (m: Self)
        ensures
            *m.window_factory == *window_factory,
    {
        WindowManager { window_factory }
    }
}

} // verus!
