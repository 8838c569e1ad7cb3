use vstd::prelude::*;

verus! {

/// Limits and switches of a machine.
#[derive(Clone, Copy, Debug)]
pub struct Config {
    /// The maximum call depth.
    pub max_call_depth: u32,
    /// Initial number of memory pages to allocate for the invocation container.
    pub initial_pages: usize,
    /// Maximum number of memory pages an invocation container's memory
    /// can expand to.
    pub max_pages: usize,
    /// Whether debug mode is enabled or not.
    pub debug: bool,
}

impl Default for Config {
    fn default() -> (r: Self)
        ensures
            r.initial_pages == 0,
            r.max_pages == 1024,
            r.max_call_depth == 4096,
            !r.debug,
    {
        Self { initial_pages: 0, max_pages: 1024, max_call_depth: 4096, debug: false }
    }
}

} // verus!
