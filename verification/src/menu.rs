//! Menu data for lesson selection.  The interactive renderer lives
//! outside this crate; here are the menu value types and the parser for
//! menu item lines.

use vstd::prelude::*;
use crate::text::{find_char, find_char_spec, strip_trailing, strip_trailing_spec, trim, trim_spec};

verus! {

/// Menu item representing a selectable option.
#[derive(Debug, Clone, PartialEq)]
pub struct MenuItem {
    pub label: String,
    pub title: String,
}

/// Mathematical image of a [`MenuItem`].
#[verifier::ext_equal]
pub struct MenuItemModel {
    pub label: Seq<char>,
    pub title: Seq<char>,
}

impl View for MenuItem {
    type V = MenuItemModel;

    open spec fn view(&self) -> MenuItemModel {
        MenuItemModel { label: self.label@, title: self.title@ }
    }
}

/// A menu: a title and its selectable items.
#[derive(Debug, Clone)]
pub struct Menu {
    pub title: String,
    pub items: Vec<MenuItem>,
}

impl Menu {
    /// The items, as their mathematical images.
    pub open spec fn items_model(&self) -> Seq<MenuItemModel> {
        self.items@.map_values(|it: MenuItem| it@)
    }

    /// Create a new menu with a title and no items.
    pub fn new(title: String) -> (r: Self)
        ensures
            r.title@ == title@,
            r.items_model() == Seq::<MenuItemModel>::empty(),
    {
        let r = Self { title, items: Vec::new() };
        proof {
            assert(r.items_model() =~= Seq::<MenuItemModel>::empty());
        }
        r
    }

    /// Append a menu item.
    pub fn add_item(&mut self, label: String, title: String)
        ensures
            final(self).title@ == old(self).title@,
            final(self).items_model() == old(self).items_model().push(
                MenuItemModel { label: label@, title: title@ },
            ),
    {
        let ghost lm = label@;
        let ghost tm = title@;
        self.items.push(MenuItem { label, title });
        proof {
            assert(self.items_model() =~= old(self).items_model().push(
                MenuItemModel { label: lm, title: tm },
            ));
        }
    }
}

/// What a menu item line denotes, if anything: `:LABEL "description"`.
/// The label is the trimmed text between the colon and the first quote
/// and must be non-empty; the description is everything after the first
/// quote, with all trailing quotes removed.
pub open spec fn menu_line_spec(line: Seq<char>) -> Option<MenuItemModel> {
    let t = trim_spec(line);
    if t.len() == 0 || t[0] != ':' {
        None
    } else {
        let content = t.subrange(1, t.len() as int);
        match find_char_spec(content, '"', 0) {
            Some(q) => {
                let label = trim_spec(content.subrange(0, q));
                if label.len() == 0 {
                    None
                } else {
                    Some(
                        MenuItemModel {
                            label,
                            title: strip_trailing_spec(
                                content.subrange(q + 1, content.len() as int),
                                '"',
                            ),
                        },
                    )
                }
            },
            None => None,
        }
    }
}

/// Parse a menu item line, verified against [`menu_line_spec`].
pub fn parse_menu_item_line(line: &str) -> (r: Option<MenuItem>)
    ensures
        match r {
            Some(item) => menu_line_spec(line@) == Some(item@),
            None => menu_line_spec(line@) is None,
        },
{
    let t = trim(line);
    let tn = t.unicode_len();
    if tn == 0 || t.get_char(0) != ':' {
        return None;
    }
    let content = t.substring_char(1, tn);
    let q = match find_char(content, '"', 0) {
        Some(q) => q,
        None => {
            return None;
        },
    };
    let label = trim(content.substring_char(0, q));
    if label.unicode_len() == 0 {
        return None;
    }
    let cn = content.unicode_len();
    let title = strip_trailing(content.substring_char(q + 1, cn), '"');
    Some(MenuItem { label: label.to_owned(), title: title.to_owned() })
}

} // verus!
