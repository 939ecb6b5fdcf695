use crate::color::Color;
use vstd::prelude::*;
use vstd::string::*;

verus! {

/// Where the music player daemon listens.
pub struct MpdConfig {
    pub host: String,
    pub port: u16,
}

/// Commands launched from the left, middle and right of the bar.
pub struct LaunchConfig {
    pub left: Option<String>,
    pub middle: Option<String>,
    pub right: Option<String>,
}

/// Named colors, status items, and the settings above.
pub struct Config {
    pub colors: Vec<(String, Color)>,
    pub status_items: Vec<String>,
    pub mpd: MpdConfig,
    pub launch: LaunchConfig,
}

fn same_text(a: &str, b: &str) -> (r: bool)
    ensures
        r == (a@ == b@),
{
    let n = a.unicode_len();
    if n != b.unicode_len() {
        return false;
    }
    let mut i: usize = 0;
    while i < n
        invariant
            n == a@.len() == b@.len(),
            i <= n,
            forall|j: int| 0 <= j < i ==> a@[j] == b@[j],
        decreases n - i,
    {
        if a.get_char(i) != b.get_char(i) {
            return false;
        }
        i = i + 1;
    }
    assert(a@ =~= b@);
    true
}

impl Config {
    /// Each name stands for at most one color, as in a map.
    pub open spec fn wf(&self) -> bool {
        forall|i: int, j: int|
            0 <= i < j < self.colors@.len() ==> #[trigger] self.colors@[i].0@
                != #[trigger] self.colors@[j].0@
    }

    /// Some entry is named `name`.
    pub open spec fn has_color(&self, name: Seq<char>) -> bool {
        exists|i: int| 0 <= i < self.colors@.len() && #[trigger] self.colors@[i].0@ == name
    }

    /// The color named `name`.
    pub fn get_color(&self, name: &str) -> (r: Color)
        requires
            self.wf(),
            self.has_color(name@),
        ensures
            exists|i: int|
                0 <= i < self.colors@.len() && #[trigger] self.colors@[i].0@ == name@ && r
                    == self.colors@[i].1,
    {
        let mut i: usize = 0;
        while i < self.colors.len()
            invariant
                i <= self.colors@.len(),
                forall|j: int| 0 <= j < i ==> #[trigger] self.colors@[j].0@ != name@,
            decreases self.colors@.len() - i,
        {
            if same_text(self.colors[i].0.as_str(), name) {
                return self.colors[i].1;
            }
            i = i + 1;
        }
        // The loop returns: by the precondition some entry carries the name.
        self.colors[0].1
    }
}

} // verus!
