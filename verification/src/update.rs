//! The messages that carry listings to their consumer.

use vstd::prelude::*;
use vstd::string::*;

use crate::file_details::{paths_of, FileDetails};

verus! {

/// One message from the pipeline to its consumer.
///
/// Today every message replaces the whole listing. The consumer owns the
/// listing it receives; the sender keeps nothing of it.
#[derive(Clone, Debug, PartialEq, Eq)]
pub enum Update {
    /// The listing is now exactly this, in this order.
    Replace(Vec<FileDetails>),
}

/// An [`Update`] as contracts see it.
pub enum UpdateView {
    Replace(Seq<Seq<char>>),
}

impl View for Update {
    type V = UpdateView;

    open spec fn view(&self) -> UpdateView {
        match *self {
            Update::Replace(entries) => UpdateView::Replace(paths_of(entries@)),
        }
    }
}

/// The character that stands for a digit.
pub open spec fn digit(d: nat) -> char {
    if d == 0 {
        '0'
    } else if d == 1 {
        '1'
    } else if d == 2 {
        '2'
    } else if d == 3 {
        '3'
    } else if d == 4 {
        '4'
    } else if d == 5 {
        '5'
    } else if d == 6 {
        '6'
    } else if d == 7 {
        '7'
    } else if d == 8 {
        '8'
    } else {
        '9'
    }
}

/// A number in decimal, without sign or leading zeros.
pub open spec fn decimal(n: nat) -> Seq<char>
    decreases n,
{
    if n < 10 {
        seq![digit(n)]
    } else {
        decimal(n / 10).push(digit(n % 10))
    }
}

/// Paths in a row, each two neighbours parted by a comma and a space.
pub open spec fn joined(paths: Seq<Seq<char>>) -> Seq<char>
    decreases paths.len(),
{
    if paths.len() == 0 {
        Seq::empty()
    } else if paths.len() == 1 {
        paths[0]
    } else {
        joined(paths.drop_last()) + seq![',', ' '] + paths.last()
    }
}

/// An update as a line of text: the word `Set`, how many entries it sets,
/// then their paths.
pub open spec fn rendered(update: UpdateView) -> Seq<char> {
    match update {
        UpdateView::Replace(paths) => seq!['S', 'e', 't', '('] + decimal(paths.len()) + seq![
            ' ',
            'f',
            'i',
            'l',
            'e',
            's',
            ')',
            ':',
            ' ',
            '[',
        ] + joined(paths) + seq![']'],
    }
}

/// One digit as text.
fn digit_text(d: usize) -> (text: &'static str)
    requires
        d < 10,
    ensures
        text@ == seq![digit(d as nat)],
{
    proof {
        reveal_strlit("0");
        reveal_strlit("1");
        reveal_strlit("2");
        reveal_strlit("3");
        reveal_strlit("4");
        reveal_strlit("5");
        reveal_strlit("6");
        reveal_strlit("7");
        reveal_strlit("8");
        reveal_strlit("9");
    }
    if d == 0 {
        "0"
    } else if d == 1 {
        "1"
    } else if d == 2 {
        "2"
    } else if d == 3 {
        "3"
    } else if d == 4 {
        "4"
    } else if d == 5 {
        "5"
    } else if d == 6 {
        "6"
    } else if d == 7 {
        "7"
    } else if d == 8 {
        "8"
    } else {
        "9"
    }
}

/// Appends a number in decimal to a text.
pub fn push_decimal(text: &mut String, n: usize)
    ensures
        final(text)@ == old(text)@ + decimal(n as nat),
    decreases n,
{
    if n >= 10 {
        push_decimal(text, n / 10);
    }
    text.append(digit_text(n % 10));
}

impl Update {
    /// The update as a line of text, for a log.
    pub fn to_string(&self) -> (text: String)
        ensures
            text@ == rendered(self@),
    {
        match self {
            Update::Replace(entries) => {
                let ghost paths = paths_of(entries@);
                let mut text = String::from_str("Set(");
                push_decimal(&mut text, entries.len());
                text.append(" files): [");
                proof {
                    reveal_strlit("Set(");
                    reveal_strlit(" files): [");
                    reveal_strlit("]");
                }
                let ghost head = text@;
                let mut i: usize = 0;
                while i < entries.len()
                    invariant
                        i <= entries.len(),
                        paths == paths_of(entries@),
                        text@ == head + joined(paths.take(i as int)),
                    decreases entries.len() - i,
                {
                    proof {
                        reveal_strlit(", ");
                        assert(paths.take(i + 1).drop_last() =~= paths.take(i as int));
                    }
                    if i > 0 {
                        text.append(", ");
                    }
                    text.append(entries[i].path.as_str());
                    i = i + 1;
                }
                text.append("]");
                proof {
                    assert(paths.take(i as int) =~= paths);
                }
                text
            },
        }
    }
}

} // verus!
