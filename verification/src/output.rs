//! Shapes the crawl's outputs: the tabular row of a record (fixed column
//! order), the lossless tagged encoding of a media reference, and the
//! deterministic per-category output file names.

use vstd::prelude::*;

use crate::question::{MediaV, Question, QuestionMedia, QuestionV};
use crate::sections::{Section, SectionV};
use crate::text::{truncate, truncate_spec};

verus! {

/// The tagged field encoding of a media reference: empty for none, else a
/// variant tag and the source URL.
pub open spec fn media_field_spec(m: MediaV) -> Seq<char> {
    match m {
        MediaV::NoMedia => Seq::empty(),
        MediaV::Image(u) => "image:"@ + u,
        MediaV::Video(u) => "video:"@ + u,
    }
}

/// What a media field decodes to: the media reference it encodes, or
/// nothing for a string no media reference encodes to.
pub open spec fn media_parse_spec(s: Seq<char>) -> Option<MediaV> {
    if s.len() == 0 {
        Some(MediaV::NoMedia)
    } else if s.len() >= 6 && s.subrange(0, 6) == "image:"@ {
        Some(MediaV::Image(s.skip(6)))
    } else if s.len() >= 6 && s.subrange(0, 6) == "video:"@ {
        Some(MediaV::Video(s.skip(6)))
    } else {
        None
    }
}

/// Encode a media reference as its tabular field.
pub fn media_field(m: &QuestionMedia) -> (r: String)
    ensures
        r@ == media_field_spec(m@),
{
    match m {
        QuestionMedia::NoMedia => {
            let r = String::new();
            proof {
                assert(r@ =~= media_field_spec(m@));
            }
            r
        },
        QuestionMedia::Image(u) => {
            let mut r = "image:".to_owned();
            r.append(u.as_str());
            r
        },
        QuestionMedia::Video(u) => {
            let mut r = "video:".to_owned();
            r.append(u.as_str());
            r
        },
    }
}

/// Decode a tabular media field.
pub fn media_parse(s: &str) -> (r: Option<QuestionMedia>)
    ensures
        r.deep_view() == media_parse_spec(s@),
{
    let n = s.unicode_len();
    if n == 0 {
        return Some(QuestionMedia::NoMedia);
    }
    if n < 6 {
        return None;
    }
    let tag = s.substring_char(0, 6);
    let rest = s.substring_char(6, n);
    if crate::text::str_eq(tag, "image:") {
        proof {
            assert(rest@ =~= s@.skip(6));
        }
        return Some(QuestionMedia::Image(rest.to_owned()));
    }
    if crate::text::str_eq(tag, "video:") {
        proof {
            assert(rest@ =~= s@.skip(6));
        }
        return Some(QuestionMedia::Video(rest.to_owned()));
    }
    None
}

/// The media encoding is lossless: decoding an encoded media reference
/// gives it back.
pub proof fn lemma_media_round_trip(m: MediaV)
    ensures
        media_parse_spec(media_field_spec(m)) == Some(m),
{
    reveal_strlit("image:");
    reveal_strlit("video:");
    match m {
        MediaV::NoMedia => {
        },
        MediaV::Image(u) => {
            let f = "image:"@ + u;
            assert(f.subrange(0, 6) =~= "image:"@);
            assert(f.skip(6) =~= u);
        },
        MediaV::Video(u) => {
            let f = "video:"@ + u;
            assert(f.subrange(0, 6) =~= "video:"@);
            assert(f.subrange(0, 6) != "image:"@) by {
                assert(f.subrange(0, 6)[0] == 'v');
                assert("image:"@[0] == 'i');
            }
            assert(f.skip(6) =~= u);
        },
    }
}

/// The field an optional answer serializes to: its text, or empty when
/// absent.
pub open spec fn opt_field(o: Option<Seq<char>>) -> Seq<char> {
    match o {
        Some(s) => s,
        None => Seq::empty(),
    }
}

/// The tabular row of a record, in the fixed column order.
pub open spec fn row_spec(q: QuestionV) -> Seq<Seq<char>> {
    seq![
        q.code,
        q.change_date,
        q.question,
        media_field_spec(q.media),
        q.right_answer,
        opt_field(q.first_wrong_answer),
        opt_field(q.second_wrong_answer),
    ]
}

/// The header row naming the columns, in the same order.
pub open spec fn header_spec() -> Seq<Seq<char>> {
    seq![
        "code"@,
        "change_date"@,
        "question"@,
        "media"@,
        "right_answer"@,
        "first_wrong_answer"@,
        "second_wrong_answer"@,
    ]
}

/// The tabular row of one record.
pub fn question_row(q: &Question) -> (r: Vec<String>)
    ensures
        r.deep_view() == row_spec(q@),
{
    let mut r: Vec<String> = Vec::new();
    r.push(q.code.clone());
    r.push(q.change_date.clone());
    r.push(q.question.clone());
    r.push(media_field(&q.media));
    r.push(q.right_answer.clone());
    match &q.first_wrong_answer {
        Option::Some(s) => r.push(s.clone()),
        Option::None => r.push(String::new()),
    }
    match &q.second_wrong_answer {
        Option::Some(s) => r.push(s.clone()),
        Option::None => r.push(String::new()),
    }
    proof {
        assert(r.deep_view() =~= row_spec(q@));
    }
    r
}

/// The header row of the tabular output.
pub fn header_row() -> (r: Vec<String>)
    ensures
        r.deep_view() == header_spec(),
{
    let mut r: Vec<String> = Vec::new();
    r.push("code".to_owned());
    r.push("change_date".to_owned());
    r.push("question".to_owned());
    r.push("media".to_owned());
    r.push("right_answer".to_owned());
    r.push("first_wrong_answer".to_owned());
    r.push("second_wrong_answer".to_owned());
    proof {
        assert(r.deep_view() =~= header_spec());
    }
    r
}

/// The shared stem of a category's output files: the scope token and the
/// name truncated to 30 characters.
pub open spec fn out_stem_spec(s: SectionV) -> Seq<char> {
    "./scrape."@ + s.section_id + "."@ + truncate_spec(s.name, 30)
}

fn out_stem(section: &Section) -> (r: String)
    ensures
        r@ == out_stem_spec(section@),
{
    let mut r = "./scrape.".to_owned();
    r.append(section.section_id.as_str());
    r.append(".");
    let t = truncate(section.name.as_str(), 30);
    r.append(t.as_str());
    r
}

/// The archive output file of a category.
pub fn out_html_path(section: &Section) -> (r: String)
    ensures
        r@ == out_stem_spec(section@) + ".html"@,
{
    let mut r = out_stem(section);
    r.append(".html");
    r
}

/// The tabular output file of a category.
pub fn out_csv_path(section: &Section) -> (r: String)
    ensures
        r@ == out_stem_spec(section@) + ".csv"@,
{
    let mut r = out_stem(section);
    r.append(".csv");
    r
}

} // verus!
