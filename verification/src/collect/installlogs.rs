//! Install Logs workflow: InstallHistory.xml, the installer's temp folder and
//! the install cache.

use vstd::prelude::*;

verus! {

/// Where the install history comes from and what is copied with it.
#[derive(Debug, Clone)]
pub struct Options {
    /// Explicit InstallHistory.xml path; `None` means discover it.
    pub history_path: Option<String>,
    pub auto_discover: bool,
    pub include_installer_temp: bool,
    pub include_install_cache: bool,
}

impl Default for Options {
    fn default() -> (o: Options)
        ensures
            o.history_path is None,
            o.auto_discover && o.include_installer_temp && o.include_install_cache,
    {
        Options {
            history_path: None,
            auto_discover: true,
            include_installer_temp: true,
            include_install_cache: true,
        }
    }
}

/// Discovery runs when it is asked for or no path was given.
pub fn discovers_history(opts: &Options) -> (r: bool)
    ensures
        r == (opts.auto_discover || opts.history_path is None),
{
    opts.auto_discover || opts.history_path.is_none()
}

/// The InstallHistory.xml to use: when discovery runs, what it found, else
/// the given path; otherwise the given path.
pub fn history_candidate(opts: &Options, discovered: Option<String>) -> (r: Option<String>)
    ensures
        crate::text::opt_view(r) == if opts.auto_discover || opts.history_path is None {
            match discovered {
                Some(d) => Some(d@),
                None => crate::text::opt_view(opts.history_path),
            }
        } else {
            crate::text::opt_view(opts.history_path)
        },
{
    if discovers_history(opts) {
        match discovered {
            Some(d) => Some(d),
            None => opts.history_path.clone(),
        }
    } else {
        opts.history_path.clone()
    }
}

} // verus!
