//! The listing of an inbox.
use crate::error::{AppResult, ErrorCode};
use crate::model::Envelope;
use crate::order;
use crate::order::Sortable;
use crate::output;
use crate::output::{InboxItem, InboxOutput};
use crate::text;
use vstd::prelude::*;

verus! {

/// A mail file of an inbox, as it was found.
#[derive(Debug)]
pub struct InboxRead {
    /// Where it lies, as it is shown.
    pub path: String,
    pub read: AppResult<Envelope>,
}

/// Mails are listed by id.
impl Sortable for InboxItem {
    open spec fn at_most(self, other: Self) -> bool {
        text::le(self.id@, other.id@)
    }

    proof fn at_most_total(a: Self, b: Self) {
        text::lt_total(a.id@, b.id@);
    }

    proof fn at_most_transitive(a: Self, b: Self, c: Self) {
        if a.id@ != b.id@ && b.id@ != c.id@ {
            text::lt_transitive(a.id@, b.id@, c.id@);
        }
    }

    fn is_at_most(&self, other: &Self) -> (r: bool) {
        text::less_or_same(self.id.as_str(), other.id.as_str())
    }
}

/// The mails that could be read, in the order of the files.
pub open spec fn readable(files: Seq<InboxRead>) -> Seq<InboxItem>
    decreases files.len(),
{
    if files.len() == 0 {
        seq![]
    } else {
        match files[0].read {
            Ok(envelope) => seq![output::item_of(envelope)] + readable(files.skip(1)),
            Err(_) => readable(files.skip(1)),
        }
    }
}

/// How many files could not be read at all. A malformed file can be read.
pub open spec fn unreadable(files: Seq<InboxRead>) -> nat
    decreases files.len(),
{
    if files.len() == 0 {
        0
    } else {
        unreadable(files.skip(1)) + (if files[0].read is Err && files[0].read->Err_0.code
            == ErrorCode::IoError {
            1nat
        } else {
            0nat
        })
    }
}

/// What is said of the files that are passed over.
pub open spec fn skip_warnings(files: Seq<InboxRead>) -> Seq<Seq<char>>
    decreases files.len(),
{
    if files.len() == 0 {
        seq![]
    } else {
        match files[0].read {
            Ok(_) => skip_warnings(files.skip(1)),
            Err(e) => seq![
                (if e.code == ErrorCode::IoError {
                    "post: warning: skipped unreadable mail '"@
                } else {
                    "post: warning: skipped malformed mail '"@
                }) + files[0].path@ + "': "@ + e.message@,
            ] + skip_warnings(files.skip(1)),
        }
    }
}

/// What an inbox holds.
#[derive(Debug)]
pub struct InboxListing {
    pub unread: Vec<InboxItem>,
    pub skipped_unreadable: usize,
    pub warnings: Vec<String>,
}

/// Lists an inbox. A file that cannot be listed is passed over with a warning, and never
/// hides the others.
pub fn list_inbox(files: Vec<InboxRead>) -> (r: InboxListing)
    ensures
        order::stable_sort_of(readable(files@), r.unread@),
        r.skipped_unreadable == unreadable(files@),
        text::texts(r.warnings@) == skip_warnings(files@),
{
    let ghost all = files@;
    let total: usize = files.len();
    let mut rest = files;
    let mut unread: Vec<InboxItem> = Vec::new();
    let mut skipped: usize = 0;
    let mut warnings: Vec<String> = Vec::new();
    assert(all.skip(all.len() as int) =~= seq![]);
    assert(text::texts(warnings@) =~= seq![]);
    while rest.len() > 0
        invariant
            total == all.len(),
            rest@.len() <= all.len(),
            rest@ == all.take(rest@.len() as int),
            unread@ == readable(all.skip(rest@.len() as int)),
            skipped == unreadable(all.skip(rest@.len() as int)),
            skipped + rest@.len() <= total,
            text::texts(warnings@) == skip_warnings(all.skip(rest@.len() as int)),
        decreases rest@.len(),
    {
        let ghost n = rest@.len() - 1;
        assert(all.skip(n).skip(1) =~= all.skip(n + 1));
        assert(all.skip(n)[0] == all[n]);
        let ghost kept = unread@;
        let ghost said = text::texts(warnings@);
        match rest.pop() {
            Some(file) => {
                assert(file == all[n]);
                assert(rest@ =~= all.take(n));
                match file.read {
                    Ok(envelope) => {
                        let item = InboxItem::from(envelope);
                        unread.insert(0, item);
                        assert(unread@ =~= seq![item] + kept);
                    },
                    Err(e) => {
                        let head = if e.code == ErrorCode::IoError {
                            skipped = skipped + 1;
                            "post: warning: skipped unreadable mail '"
                        } else {
                            "post: warning: skipped malformed mail '"
                        };
                        let line = text::cat4(head, file.path.as_str(), "': ", e.message.as_str());
                        warnings.insert(0, line);
                        assert(text::texts(warnings@) =~= seq![line@] + said);
                    },
                }
            },
            None => {},
        }
    }
    assert(all.skip(0) =~= all);
    InboxListing { unread: order::sort(unread), skipped_unreadable: skipped, warnings }
}

/// A mail of the listing, as text.
pub open spec fn item_line(item: InboxItem) -> Seq<char> {
    output::header_text(item.id@) + "  ["@ + item.kind.name() + "] from "@ + output::label(
        crate::outside::debug_form(item.from@),
        text::opt(item.display_name),
        text::opt(item.pfp),
    ) + output::quoted_subject(item.subject@) + "\n"@
}

/// The lines of some mails.
pub open spec fn item_lines(items: Seq<InboxItem>) -> Seq<char>
    decreases items.len(),
{
    if items.len() == 0 {
        ""@
    } else {
        item_lines(items.drop_last()) + item_line(items.last())
    }
}

/// The listing as text: a heading, and one line for each mail.
pub fn inbox_text(room: &str, items: &Vec<InboxItem>) -> (r: String)
    ensures
        forall|i: int| 0 <= i < items@.len() ==> text::one_line(item_line(#[trigger] items@[i])),
        r@ == if items@.len() == 0 {
            "post: inbox empty for "@ + output::header_text(room@) + "\n"@
        } else {
            "post: inbox for "@ + output::header_text(room@) + " ("@ + text::decimal(items@.len())
                + " unread)\n"@ + item_lines(items@)
        },
{
    let shown = output::sanitize_text_header(room);
    if items.len() == 0 {
        return text::cat3("post: inbox empty for ", shown.as_str(), "\n");
    }
    let mut out = "".to_owned();
    assert(item_lines(items@.take(0)) == ""@);
    for i in 0..items.len()
        invariant
            out@ == item_lines(items@.take(i as int)),
            forall|k: int| 0 <= k < i ==> text::one_line(item_line(#[trigger] items@[k])),
    {
        assert(items@.take(i + 1).drop_last() =~= items@.take(i as int));
        let item = &items[i];
        let sender = output::sender_label_quoted(
            item.from.as_str(),
            output::borrowed(&item.display_name),
            output::borrowed(&item.pfp),
        );
        let id = output::sanitize_text_header(item.id.as_str());
        let subject = output::quoted_subject_text(item.subject.as_str());
        let line = text::cat7(
            id.as_str(),
            "  [",
            item.kind.as_str(),
            "] from ",
            sender.as_str(),
            subject.as_str(),
            "\n",
        );
        proof {
            output::header_text_is_one_line(item.id@);
            output::mail_lines_are_single(id@, item.kind, sender@, subject@);
        }
        out.append(line.as_str());
    }
    assert(items@.take(items@.len() as int) =~= items@);
    text::cat6(
        "post: inbox for ",
        shown.as_str(),
        " (",
        text::decimal_text(items.len() as u64).as_str(),
        " unread)\n",
        out.as_str(),
    )
}

/// The report of a listing.
pub fn inbox_output(room: &str, listing: InboxListing) -> (r: InboxOutput)
    ensures
        r.ok,
        r.room@ == room@,
        r.unread == listing.unread,
        r.count == listing.unread@.len(),
        r.skipped_unreadable == listing.skipped_unreadable,
{
    let count: usize = listing.unread.len();
    InboxOutput {
        ok: true,
        room: room.to_owned(),
        unread: listing.unread,
        count,
        skipped_unreadable: listing.skipped_unreadable,
    }
}

} // verus!
