//! The widths of the columns in which a set of notes is listed.

use vstd::prelude::*;
use vstd::string::StrSliceExecFns;
use crate::errors::{Error, ErrorView};
use crate::item::{Item, ItemView, Status, views};
use crate::text::{decimal, decimal_len, lemma_decimal_len_bound};

verus! {

/// The layout of one list: the width of each column and of the gap between
/// two columns. It is made anew for every list.
#[derive(Clone, Copy, Debug, PartialEq, Eq, Structural)]
pub struct LineFormat {
    pub colsep: usize,
    pub id_width: usize,
    pub title_width: usize,
    pub status_width: usize,
    pub touched_width: usize,
}

/// The gap between two columns.
pub open spec fn spec_colsep(condensed: bool) -> nat {
    if condensed {
        1
    } else {
        2
    }
}

/// The width of the longest id among the first `n` notes; 0 for none.
pub open spec fn max_id_len(items: Seq<ItemView>, n: int) -> nat
    decreases n,
{
    if n <= 0 {
        0
    } else {
        let rest = max_id_len(items, n - 1);
        let here = decimal(items[n - 1].id as nat).len();
        if here > rest {
            here
        } else {
            rest
        }
    }
}

/// The width that the title of a note takes: its length, and four more for
/// the marker of a body where the note has one and bodies are not searched.
pub open spec fn title_len(item: ItemView, search: bool) -> nat {
    if item.body.len() > 0 && !search {
        item.title.len() + 4
    } else {
        item.title.len()
    }
}

/// The width of the widest title among the first `n` notes; 0 for none.
pub open spec fn max_title_len(items: Seq<ItemView>, search: bool, n: int) -> nat
    decreases n,
{
    if n <= 0 {
        0
    } else {
        let rest = max_title_len(items, search, n - 1);
        let here = title_len(items[n - 1], search);
        if here > rest {
            here
        } else {
            rest
        }
    }
}

/// Whether one of the first `n` notes has a status other than `Blank`.
pub open spec fn any_status(items: Seq<ItemView>, n: int) -> bool {
    exists|i: int| 0 <= i < n && i < items.len() && #[trigger] items[i].status != Status::Blank
}

/// The width of the id column: that of the longest id, and at least 2 in a
/// list that is not condensed, where the column has a heading.
pub open spec fn spec_id_width(items: Seq<ItemView>, condensed: bool) -> nat {
    let longest = max_id_len(items, items.len() as int);
    if longest < 2 && !condensed {
        2
    } else {
        longest
    }
}

/// The width of the title column before the console is looked at: that of
/// the widest title, and at least 5 in a list that is not condensed.
pub open spec fn spec_full_title_width(items: Seq<ItemView>, condensed: bool, search: bool) -> nat {
    let widest = max_title_len(items, search, items.len() as int);
    if widest < 5 && !condensed {
        5
    } else {
        widest
    }
}

/// The width of the status column: none where every note is `Blank`.
pub open spec fn spec_status_width(items: Seq<ItemView>, condensed: bool) -> nat {
    if any_status(items, items.len() as int) {
        if condensed {
            1
        } else {
            7
        }
    } else {
        0
    }
}

/// The width of the column for the time of last change: the date alone in
/// a condensed list, else date and time.
pub open spec fn spec_touched_width(condensed: bool) -> nat {
    if condensed {
        10
    } else {
        19
    }
}

/// The width of a whole line: the columns and the gaps between them.
pub open spec fn spec_line_width(
    colsep: nat,
    id_width: nat,
    title_width: nat,
    status_width: nat,
    touched_width: nat,
) -> nat {
    let gaps: nat = if status_width == 0 {
        2
    } else {
        3
    };
    id_width + title_width + status_width + touched_width + gaps * colsep
}

/// The width of a line of the list before the console is looked at.
pub open spec fn spec_full_line_width(items: Seq<ItemView>, condensed: bool, search: bool) -> nat {
    spec_line_width(
        spec_colsep(condensed),
        spec_id_width(items, condensed),
        spec_full_title_width(items, condensed, search),
        spec_status_width(items, condensed),
        spec_touched_width(condensed),
    )
}

/// The width of the title column: the full width, made narrower by as much
/// as the line is wider than a console of known width, where that leaves
/// the column a width at all.
pub open spec fn spec_title_width(
    items: Seq<ItemView>,
    condensed: bool,
    search: bool,
    console_width: nat,
) -> nat {
    let full = spec_full_title_width(items, condensed, search);
    let line = spec_full_line_width(items, condensed, search);
    if console_width > 0 && line > console_width && full > line - console_width {
        (full - (line - console_width)) as nat
    } else {
        full
    }
}

/// A list in which every note is `Blank` has no status column.
pub proof fn lemma_blank_notes_have_no_status_column(items: Seq<ItemView>, condensed: bool)
    requires
        forall|i: int| 0 <= i < items.len() ==> items[i].status == Status::Blank,
    ensures
        spec_status_width(items, condensed) == 0,
{
}

/// A list with a note that is not `Blank`, an urgent one for instance, has
/// a status column, wherever the note stands.
pub proof fn lemma_one_status_makes_a_column(items: Seq<ItemView>, at: int, condensed: bool)
    requires
        0 <= at < items.len(),
        items[at].status != Status::Blank,
    ensures
        spec_status_width(items, condensed) > 0,
{
    assert(any_status(items, items.len() as int));
}

/// The title column is never wider than the widest title asks for, and a
/// line of the list is never wider than the full line.
pub proof fn lemma_title_width_bound(
    items: Seq<ItemView>,
    condensed: bool,
    search: bool,
    console_width: nat,
)
    ensures
        spec_title_width(items, condensed, search, console_width) <= spec_full_title_width(
            items,
            condensed,
            search,
        ),
{
}

impl LineFormat {
    /// The width of a line under this layout.
    pub open spec fn spec_width(self) -> nat {
        spec_line_width(
            self.colsep as nat,
            self.id_width as nat,
            self.title_width as nat,
            self.status_width as nat,
            self.touched_width as nat,
        )
    }

    /// Whether this is the layout of the list of `items` on a console of
    /// `console_width` columns, 0 standing for a width that is not known.
    pub open spec fn is_layout_of(
        self,
        items: Seq<ItemView>,
        condensed: bool,
        search: bool,
        console_width: nat,
    ) -> bool {
        &&& self.colsep == spec_colsep(condensed)
        &&& self.id_width == spec_id_width(items, condensed)
        &&& self.title_width == spec_title_width(items, condensed, search, console_width)
        &&& self.status_width == spec_status_width(items, condensed)
        &&& self.touched_width == spec_touched_width(condensed)
    }

    /// The layout of the list of `items` on a console of `console_width`
    /// columns; 0 stands for a console whose width is not known. Fails with
    /// `InvalidArgument` only where a line of the list would be wider than a
    /// `usize` can say.
    pub fn new(items: &[Item], condensed: bool, search: bool, console_width: usize) -> (r: Result<
        LineFormat,
        Error,
    >)
        ensures
            r is Ok <==> spec_full_line_width(views(items@), condensed, search) <= usize::MAX,
            r is Ok ==> r->Ok_0.is_layout_of(
                views(items@),
                condensed,
                search,
                console_width as nat,
            ),
            r is Err ==> r->Err_0@ is InvalidArgument,
    {
        let colsep: usize = if condensed {
            1
        } else {
            2
        };
        let mut id_width: usize = 0;
        let mut title_width: usize = 0;
        let mut title_fits: bool = true;
        let mut status_seen: bool = false;
        let mut i: usize = 0;
        while i < items.len()
            invariant
                i <= items.len(),
                id_width == max_id_len(views(items@), i as int),
                id_width <= 20,
                title_fits ==> title_width == max_title_len(views(items@), search, i as int),
                !title_fits ==> max_title_len(views(items@), search, i as int) > usize::MAX,
                status_seen == any_status(views(items@), i as int),
            decreases items.len() - i,
        {
            let item = &items[i];
            let id_len = decimal_len(item.id);
            proof {
                lemma_decimal_len_bound(item.id as nat);
                assert(views(items@)[i as int] == item@);
            }
            if id_len > id_width {
                id_width = id_len;
            }
            let len = item.title.as_str().unicode_len();
            let marked = item.body.as_str().unicode_len() > 0 && !search;
            if marked && len > usize::MAX - 4 {
                title_fits = false;
            } else if title_fits {
                let here: usize = if marked {
                    len + 4
                } else {
                    len
                };
                if here > title_width {
                    title_width = here;
                }
            }
            if item.status != Status::Blank {
                status_seen = true;
                assert(views(items@)[i as int].status != Status::Blank);
            }
            i += 1;
        }
        if !title_fits {
            return Err(Error::InvalidArgument("the titles are too wide for a line".to_owned()));
        }
        if id_width < 2 && !condensed {
            id_width = 2;
        }
        if title_width < 5 && !condensed {
            title_width = 5;
        }
        let status_width: usize = if status_seen {
            if condensed {
                1
            } else {
                7
            }
        } else {
            0
        };
        let touched_width: usize = if condensed {
            10
        } else {
            19
        };
        // All the columns but the title's, and the gaps: 56 at most.
        let fixed: usize = id_width + status_width + touched_width + (if status_width == 0 {
            2
        } else {
            3
        }) * colsep;
        if title_width > usize::MAX - fixed {
            return Err(Error::InvalidArgument("the titles are too wide for a line".to_owned()));
        }
        let line_width: usize = fixed + title_width;
        if console_width > 0 && line_width > console_width && title_width > line_width
            - console_width {
            title_width = title_width - (line_width - console_width);
        }
        Ok(LineFormat { colsep, id_width, title_width, status_width, touched_width })
    }

    /// The width of a line under this layout, or `None` where it is more
    /// than a `usize` can say.
    pub fn line_width(&self) -> (r: Option<usize>)
        ensures
            match r {
                Some(w) => w == self.spec_width(),
                None => self.spec_width() > usize::MAX,
            },
    {
        let gaps: usize = if self.status_width == 0 {
            2
        } else {
            3
        };
        let sep = gaps.checked_mul(self.colsep)?;
        let a = self.id_width.checked_add(self.title_width)?;
        let b = a.checked_add(self.status_width)?;
        let c = b.checked_add(self.touched_width)?;
        c.checked_add(sep)
    }
}

} // verus!
