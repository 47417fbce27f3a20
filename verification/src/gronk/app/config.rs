//! Settings of the terminal player taken from its command line.
use vstd::prelude::*;
use crate::text::{views, compare_text, TextOrder};

verus! {

/// The music folders to scan.
#[derive(Debug)]
pub struct Config {
    music_dirs: Vec<String>,
}

impl Config {
    /// The music folders, in order.
    pub closed spec fn dirs_view(&self) -> Seq<Seq<char>> {
        views(self.music_dirs@)
    }

    /// The settings named by the command-line arguments that follow the
    /// program's name: `add DIR` adds the folder `DIR`; anything else adds
    /// nothing.
    pub fn new(args: &[String]) -> (r: Self)
        ensures
            r.dirs_view() == (if args.len() >= 2 && args@[0]@ == "add"@ {
                seq![args@[1]@]
            } else {
                Seq::<Seq<char>>::empty()
            }),
    {
        let mut music_dirs: Vec<String> = Vec::new();
        if args.len() > 0 && compare_text(args[0].as_str(), "add") == TextOrder::Same {
            if args.len() > 1 {
                music_dirs.push(args[1].clone());
            }
        }
        let r = Config { music_dirs };
        proof {
            assert(r.dirs_view() =~= (if args.len() >= 2 && args@[0]@ == "add"@ {
                seq![args@[1]@]
            } else {
                Seq::<Seq<char>>::empty()
            }));
        }
        r
    }

    pub fn get_music_dirs(&self) -> (r: &Vec<String>)
        ensures
            views(r@) == self.dirs_view(),
    {
        &self.music_dirs
    }
}

} // verus!
