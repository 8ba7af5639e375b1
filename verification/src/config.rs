use vstd::prelude::*;

verus! {

/// The neutral palette the UI is drawn with.
#[derive(Clone, Copy, PartialEq, Eq, Structural, Debug)]
pub enum MainColor {
    Slate,
    Gray,
    Zinc,
    Neutral,
    Stone,
}

/// The accent palette the UI is drawn with.
#[derive(Clone, Copy, PartialEq, Eq, Structural, Debug)]
pub enum AccentColor {
    Red,
    Orange,
    Amber,
    Yellow,
    Lime,
    Green,
    Emerald,
    Teal,
    Cyan,
    Blue,
    Indigo,
    Violet,
    Purple,
    Fuchsia,
    Pink,
    Rose,
}

/// User configuration. `music_folders` holds the directories a scan walks.
pub struct Config {
    pub music_folders: Vec<String>,
    pub dark_mode: bool,
    pub main_color: MainColor,
    pub accent_color: AccentColor,
}

/// The folder lists of two configurations, as character sequences.
pub open spec fn folder_names(c: &Config) -> Seq<Seq<char>> {
    c.music_folders@.map_values(|s: String| s@)
}

impl Default for Config {
    fn default() -> (r: Config)
        ensures
            r.music_folders@ == Seq::<String>::empty(),
            r.dark_mode,
            r.main_color is Zinc,
            r.accent_color is Emerald,
    {
        Config {
            music_folders: Vec::new(),
            dark_mode: true,
            main_color: MainColor::Zinc,
            accent_color: AccentColor::Emerald,
        }
    }
}

impl Clone for Config {
    fn clone(&self) -> (res: Config)
        ensures
            folder_names(&res) == folder_names(self),
            res.dark_mode == self.dark_mode,
            res.main_color == self.main_color,
            res.accent_color == self.accent_color,
    {
        let mut folders: Vec<String> = Vec::new();
        let n = self.music_folders.len();
        for i in 0..n
            invariant
                n == self.music_folders@.len(),
                folders@.len() == i,
                forall|j: int| 0 <= j < i ==> #[trigger] folders@[j]@ == self.music_folders@[j]@,
        {
            folders.push(self.music_folders[i].clone());
        }
        let res = Config {
            music_folders: folders,
            dark_mode: self.dark_mode,
            main_color: self.main_color,
            accent_color: self.accent_color,
        };
        proof {
            assert(folder_names(&res) =~= folder_names(self));
        }
        res
    }
}

/// Whether a newly submitted configuration names a different folder list
/// than the current one; if so the caller must rescan the collection.
pub fn needs_rescan(current: &Config, submitted: &Config) -> (r: bool)
    ensures
        r == (folder_names(current) != folder_names(submitted)),
{
    let n = current.music_folders.len();
    if n != submitted.music_folders.len() {
        assert(folder_names(current).len() != folder_names(submitted).len());
        return true;
    }
    for i in 0..n
        invariant
            n == current.music_folders@.len(),
            n == submitted.music_folders@.len(),
            forall|j: int|
                0 <= j < i ==> #[trigger] current.music_folders@[j]@ == submitted.music_folders@[j]@,
    {
        if !(current.music_folders[i] == submitted.music_folders[i]) {
            assert(folder_names(current)[i as int] != folder_names(submitted)[i as int]);
            return true;
        }
    }
    proof {
        assert(folder_names(current) =~= folder_names(submitted));
    }
    false
}

} // verus!
