//! View preferences kept between sessions.
use vstd::prelude::*;

use crate::view::{FileViewOptions, ViewMode};

verus! {

/// The view settings that are saved: layout, hidden files, extensions.
#[derive(Clone, Copy, Debug, PartialEq, Eq, Structural)]
pub struct Preferences {
    pub view_mode: ViewMode,
    pub show_hidden_files: bool,
    pub show_file_extensions: bool,
}

/// Extensions are shown unless the saved preferences say otherwise.
pub fn default_show_extensions() -> (r: bool)
    ensures
        r,
{
    true
}

/// The saved settings that `o` holds.
pub open spec fn prefs_of(o: FileViewOptions) -> Preferences {
    Preferences {
        view_mode: o.view_mode,
        show_hidden_files: o.show_hidden_files,
        show_file_extensions: o.show_file_extensions,
    }
}

impl Default for Preferences {
    fn default() -> (r: Preferences)
        ensures
            r == (Preferences {
                view_mode: ViewMode::SmallIcons,
                show_hidden_files: false,
                show_file_extensions: true,
            }),
    {
        Preferences {
            view_mode: ViewMode::SmallIcons,
            show_hidden_files: false,
            show_file_extensions: default_show_extensions(),
        }
    }
}

impl Preferences {
    /// Puts these preferences into `options`, leaving sort, selection, rename and clipboard.
    pub fn apply_to(&self, options: &mut FileViewOptions)
        ensures
            prefs_of(*final(options)) == *self,
            final(options).sort_field == old(options).sort_field,
            final(options).sort_order == old(options).sort_order,
            final(options).selected == old(options).selected,
            final(options).renaming == old(options).renaming,
            final(options).clipboard == old(options).clipboard,
    {
        options.view_mode = self.view_mode;
        options.show_hidden_files = self.show_hidden_files;
        options.show_file_extensions = self.show_file_extensions;
    }

    /// The preferences that `options` hold.
    pub fn from_view_options(options: &FileViewOptions) -> (r: Preferences)
        ensures
            r == prefs_of(*options),
    {
        Preferences {
            view_mode: options.view_mode,
            show_hidden_files: options.show_hidden_files,
            show_file_extensions: options.show_file_extensions,
        }
    }
}

} // verus!
