//! Highlights: the Markdown document they are exported as.

use vstd::prelude::*;
use crate::text::{decimal, push_decimal};
use crate::types::Highlight;
use crate::ai::client::opt_view;
use crate::clock::{format_utc, now_text, utc_text, date_time_stamp, utc_date_time_text};

verus! {

/// The section of one highlight, numbered `n`, with the date it was saved
/// when there is one.
pub open spec fn highlight_section(n: nat, h: Highlight, saved: Option<Seq<char>>) -> Seq<char> {
    "## "@ + decimal(n) + ". "@ + h.text@ + "\n\n"@
        + (match h.note { Some(note) => "> Note: "@ + note@ + "\n\n"@, None => seq![] })
        + (match saved { Some(d) => "_Saved on "@ + d + "_\n\n"@, None => seq![] })
        + "---\n\n"@
}

/// The sections of the highlights, numbered from one.
pub open spec fn highlight_sections(hs: Seq<Highlight>, saved: Seq<Option<Seq<char>>>) -> Seq<char>
    decreases hs.len(),
{
    if hs.len() == 0 {
        seq![]
    } else {
        highlight_sections(hs.drop_last(), saved.drop_last())
            + highlight_section(hs.len(), hs.last(), saved[hs.len() - 1])
    }
}

/// The exported document: a title, the export time, and the highlights (or
/// a line saying there are none).
pub open spec fn export_spec(hs: Seq<Highlight>, exported_on: Seq<char>, saved: Seq<Option<Seq<char>>>) -> Seq<char> {
    "# Nuzzle Highlights\n\n"@ + "_Exported on "@ + exported_on + "_\n\n"@
        + if hs.len() == 0 { "No highlights yet.\n"@ } else { highlight_sections(hs, saved) }
}

/// The dates the highlights were saved, as shown: the day of each one's
/// time, where it has one that `chrono` can represent.
pub open spec fn saved_dates(hs: Seq<Highlight>) -> Seq<Option<Seq<char>>> {
    Seq::new(hs.len(), |i: int| match hs[i].created_at {
        Some(t) => utc_text(t.secs, t.nanos, "%Y-%m-%d"@),
        None => None,
    })
}

fn push_section(s: &mut String, n: u64, h: &Highlight, saved: &Option<String>)
    ensures
        final(s)@ == old(s)@ + highlight_section(n as nat, *h, opt_view(*saved)),
{
    s.append("## ");
    push_decimal(s, n);
    s.append(". ");
    s.append(h.text.as_str());
    s.append("\n\n");
    match &h.note {
        Some(note) => {
            s.append("> Note: ");
            s.append(note.as_str());
            s.append("\n\n");
        },
        None => {},
    }
    match saved {
        Some(d) => {
            s.append("_Saved on ");
            s.append(d.as_str());
            s.append("_\n\n");
        },
        None => {},
    }
    s.append("---\n\n");
}

/// The exported document, given the export time and the date shown for each
/// highlight.
pub fn export_markdown(highlights: &Vec<Highlight>, exported_on: &str, saved: &Vec<Option<String>>) -> (r: String)
    requires
        saved@.len() == highlights@.len(),
    ensures
        r@ == export_spec(highlights@, exported_on@, saved@.map_values(|o: Option<String>| opt_view(o))),
{
    let ghost sv = saved@.map_values(|o: Option<String>| opt_view(o));
    let mut s = String::from_str("# Nuzzle Highlights\n\n");
    s.append("_Exported on ");
    s.append(exported_on);
    s.append("_\n\n");
    if highlights.len() == 0 {
        s.append("No highlights yet.\n");
        return s;
    }
    let ghost head = s@;
    let mut i: usize = 0;
    while i < highlights.len()
        invariant
            0 <= i <= highlights@.len(),
            saved@.len() == highlights@.len(),
            sv == saved@.map_values(|o: Option<String>| opt_view(o)),
            s@ == head + highlight_sections(highlights@.take(i as int), sv.take(i as int)),
        decreases highlights@.len() - i,
    {
        let h = &highlights[i];
        let ghost before = s@;
        push_section(&mut s, (i as u64) + 1, h, &saved[i]);
        proof {
            let hs = highlights@.take(i + 1);
            let ds = sv.take(i + 1);
            assert(hs.drop_last() =~= highlights@.take(i as int));
            assert(ds.drop_last() =~= sv.take(i as int));
            assert(ds[i as int] == opt_view(saved@[i as int]));
            assert(s@ == before + highlight_section((i + 1) as nat, *h, ds[i as int]));
        }
        i = i + 1;
    }
    assert(highlights@.take(highlights@.len() as int) =~= highlights@);
    assert(sv.take(highlights@.len() as int) =~= sv);
    s
}

/// Export the highlights as a Markdown document stamped with the current
/// time; each shows the day it was saved.
pub fn export_highlights(highlights: &Vec<Highlight>) -> (r: String)
    ensures
        exists|on: Seq<char>| utc_date_time_text(on) && r@ == export_spec(highlights@, on, saved_dates(highlights@)),
{
    let on = now_text("%Y-%m-%d %H:%M:%S UTC");
    let mut saved: Vec<Option<String>> = Vec::new();
    let mut i: usize = 0;
    while i < highlights.len()
        invariant
            0 <= i <= highlights@.len(),
            saved@.len() == i,
            forall|k: int| 0 <= k < i ==> opt_view(#[trigger] saved@[k]) == saved_dates(highlights@)[k],
        decreases highlights@.len() - i,
    {
        let d = match highlights[i].created_at {
            Some(t) => format_utc(t, "%Y-%m-%d"),
            None => None,
        };
        saved.push(d);
        i = i + 1;
    }
    let r = export_markdown(highlights, on.as_str(), &saved);
    assert(saved@.map_values(|o: Option<String>| opt_view(o)) =~= saved_dates(highlights@));
    r
}

/// The name of the file a highlight export is written to, stamped with the
/// current time.
pub fn export_file_name() -> (r: String)
    ensures
        exists|stamp: Seq<char>| date_time_stamp(stamp) && r@ == "nuzzle-export-"@ + stamp + ".md"@,
{
    let stamp = now_text("%Y%m%d-%H%M%S");
    let mut s = String::from_str("nuzzle-export-");
    s.append(stamp.as_str());
    s.append(".md");
    s
}

} // verus!
