//! Page navigation: a set of named root pages, an optional pushed page on
//! top, and the history behind it.  Navigation events drive it; pages are
//! identified by plain tokens, their drawable content living outside the
//! core.

use vstd::prelude::*;
use crate::event::ShowKeyboard;

verus! {

/// Pages supplied by an application are identified to the core by a plain
/// token; their content never enters the layout or dispatch logic.
pub trait AppPage {
    /// The token the navigation stack tracks this page by.
    fn page_token(&self) -> u64;
}

/// How the application asks to move between pages.
#[derive(Clone, Debug)]
pub enum NavigationEvent {
    /// Leave the topmost pushed page.
    Pop,
    /// Show this page on top of the current root.
    Push(Option<u64>),
    /// Back to the active root, dropping every pushed page.
    Reset,
    /// Switch to the root page with this label.
    Root(String),
    /// Show the error page with this message.
    Error(String),
}

/// The first root whose label reads `l`.
pub open spec fn spec_find_root(roots: Seq<String>, l: Seq<char>, i: int) -> Option<int>
    decreases roots.len() - i,
{
    if i < 0 || i >= roots.len() {
        Option::None
    } else if roots[i]@ == l {
        Option::Some(i)
    } else {
        spec_find_root(roots, l, i + 1)
    }
}

/// The page structure of a running interface: the named roots, which of
/// them is active, the pushed page showing on top (if any), and the pushed
/// pages behind it.
#[derive(Debug)]
pub struct Pages {
    pub roots: Vec<String>,
    pub active_root: usize,
    pub overlay: Option<u64>,
    pub history: Vec<u64>,
}

impl Pages {
    /// The active root always names a real root.
    pub open spec fn inv(self) -> bool {
        self.active_root < self.roots@.len()
    }

    /// A stack showing the first of a non-empty set of roots.
    pub fn new(roots: Vec<String>) -> (r: Pages)
        requires
            roots@.len() > 0,
        ensures
            r.roots@ == roots@,
            r.active_root == 0,
            r.overlay is None,
            r.history@ == Seq::<u64>::empty(),
            r.inv(),
    {
        Pages { roots, active_root: 0, overlay: None, history: Vec::new() }
    }

    /// Returns to a root page: drops the pushed page and the whole history,
    /// and switches roots when a label matching an existing root is given
    /// (an unknown label keeps the current root).
    pub fn root(&mut self, label: Option<&String>)
        requires
            old(self).inv(),
        ensures
            final(self).roots@ == old(self).roots@,
            final(self).overlay is None,
            final(self).history@ == Seq::<u64>::empty(),
            final(self).active_root as int == match label {
                Option::Some(l) => match spec_find_root(old(self).roots@, l@, 0) {
                    Option::Some(i) => i,
                    Option::None => old(self).active_root as int,
                },
                Option::None => old(self).active_root as int,
            },
            final(self).inv(),
    {
        if let Option::Some(l) = label {
            let mut i: usize = 0;
            let mut found: bool = false;
            while i < self.roots.len() && !found
                invariant
                    i <= self.roots@.len(),
                    self == old(self),
                    !found ==> spec_find_root(self.roots@, l@, 0) == spec_find_root(
                        self.roots@,
                        l@,
                        i as int,
                    ),
                    found ==> i < self.roots@.len() && spec_find_root(self.roots@, l@, 0)
                        == Option::Some(i as int),
                decreases self.roots@.len() - i + if found {
                    0int
                } else {
                    1int
                },
            {
                if self.roots[i].eq(l) {
                    found = true;
                } else {
                    i = i + 1;
                }
            }
            if found {
                self.active_root = i;
            }
        }
        self.overlay = None;
        self.history = Vec::new();
    }

    /// Shows a page on top; whatever was on top joins the history.
    pub fn push(&mut self, page: u64)
        requires
            old(self).inv(),
        ensures
            final(self).roots@ == old(self).roots@,
            final(self).active_root == old(self).active_root,
            final(self).overlay == Option::Some(page),
            final(self).history@ == match old(self).overlay {
                Option::Some(p) => old(self).history@.push(p),
                Option::None => old(self).history@,
            },
            final(self).inv(),
    {
        if let Option::Some(p) = self.overlay {
            self.history.push(p);
        }
        self.overlay = Option::Some(page);
    }

    /// Leaves the topmost pushed page: the most recent history entry takes
    /// its place, or the root shows again once the history is empty.
    /// Without a pushed page this does nothing.
    pub fn pop(&mut self)
        requires
            old(self).inv(),
        ensures
            final(self).roots@ == old(self).roots@,
            final(self).active_root == old(self).active_root,
            old(self).overlay is None ==> final(self).overlay == old(self).overlay && final(self).history@ == old(self).history@,
            old(self).overlay is Some && old(self).history@.len() > 0 ==> final(self).overlay
                == Option::Some(old(self).history@.last()) && final(self).history@ == old(self).history@.drop_last(),
            old(self).overlay is Some && old(self).history@.len() == 0 ==> final(self).overlay
                is None && final(self).history@ == Seq::<u64>::empty(),
            final(self).inv(),
    {
        if self.overlay.is_some() {
            match self.history.pop() {
                Option::Some(p) => {
                    self.overlay = Option::Some(p);
                },
                Option::None => {
                    self.overlay = None;
                },
            }
        }
    }
}

/// What the interface decides on a navigation event: how the page stack
/// moves, and whether the navigator bar stays visible afterwards (on mobile
/// it hides while a root page shows full-screen after an explicit root
/// switch; elsewhere it always shows).  The software keyboard is dismissed
/// on every navigation.
pub fn apply_navigation(pages: &mut Pages, nav: &NavigationEvent, mobile: bool, error_page: u64) -> (navigator_visible:
    bool)
    requires
        old(pages).inv(),
    ensures
        final(pages).inv(),
        navigator_visible == !(mobile && nav is Root),
        match nav {
            NavigationEvent::Pop => final(pages).roots@ == old(pages).roots@ && final(pages).active_root == old(pages).active_root && (match old(pages).overlay {
                Option::None => final(pages).overlay is None && final(pages).history@ == old(pages).history@,
                Option::Some(_) => if old(pages).history@.len() > 0 {
                    final(pages).overlay == Option::Some(old(pages).history@.last()) && final(pages).history@ == old(pages).history@.drop_last()
                } else {
                    final(pages).overlay is None && final(pages).history@ == Seq::<u64>::empty()
                },
            }),
            NavigationEvent::Push(p) => match p {
                Option::Some(id) => final(pages).overlay == Option::Some(*id) && final(pages).history@ == (match old(pages).overlay {
                    Option::Some(q) => old(pages).history@.push(q),
                    Option::None => old(pages).history@,
                }),
                Option::None => *final(pages) == *old(pages),
            },
            NavigationEvent::Reset => final(pages).overlay is None && final(pages).history@
                == Seq::<u64>::empty() && final(pages).active_root == old(pages).active_root,
            NavigationEvent::Root(l) => final(pages).overlay is None && final(pages).history@
                == Seq::<u64>::empty() && final(pages).active_root as int == (
            match spec_find_root(old(pages).roots@, l@, 0) {
                Option::Some(i) => i,
                Option::None => old(pages).active_root as int,
            }),
            NavigationEvent::Error(_) => final(pages).overlay == Option::Some(error_page) && final(pages).history@ == (match old(pages).overlay {
                Option::Some(q) => old(pages).history@.push(q),
                Option::None => old(pages).history@,
            }),
        },
{
    match nav {
        NavigationEvent::Pop => {
            pages.pop();
        },
        NavigationEvent::Push(p) => {
            if let Option::Some(id) = p {
                pages.push(*id);
            }
        },
        NavigationEvent::Reset => {
            pages.root(None);
        },
        NavigationEvent::Root(l) => {
            pages.root(Option::Some(l));
        },
        NavigationEvent::Error(_) => {
            pages.push(error_page);
        },
    }
    !(mobile && matches!(nav, NavigationEvent::Root(_)))
}

/// The software keyboard's visibility, as the interface drives it: keyboard
/// broadcasts show or hide it, and every navigation dismisses it.
#[derive(Clone, Copy, Debug)]
pub struct KeyboardVisibility {
    pub shown: bool,
}

impl KeyboardVisibility {
    /// Hidden until a field asks for it.
    pub fn new() -> (r: KeyboardVisibility)
        ensures
            !r.shown,
    {
        KeyboardVisibility { shown: false }
    }

    /// Follows a keyboard broadcast.
    pub fn on_show_keyboard(&mut self, req: &ShowKeyboard)
        ensures
            final(self).shown == req.0,
    {
        self.shown = req.0;
    }

    /// Every navigation dismisses the keyboard.
    pub fn on_navigation(&mut self)
        ensures
            !final(self).shown,
    {
        self.shown = false;
    }
}

} // verus!
