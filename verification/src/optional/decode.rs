//! The decode pipeline: classify the data, parse the directory where the
//! kind of file has one, and hand it to a sink.

use vstd::prelude::*;
use vstd::std_specs::convert::IntoSpec;
use crate::common::decode::{
    classification, decode_font_otf, decode_font_ttf, decode_font_type, FontFileHeader,
};
use crate::common::snft::{after_directory, parsed_directory, DirectoryView, SnftTable};
use crate::error::Error;
use crate::io::stream::{out_of_bounds, FontDataStream, StreamView};
use crate::optional::builtin::Font;
use crate::optional::sink::FontSink;

verus! {

/// Whether a file of kind `kind` starts with a table directory that this
/// library decodes: the standard kind, Apple's and the CFF-flavoured one.
pub open spec fn has_directory(kind: FontFileHeader) -> bool {
    kind is SFNT || kind is TRUE || kind is OTTO
}

/// What decoding the font file behind `stream` gives.
///
/// Data too short to hold a signature fails with the error of
/// classification. A kind of file without a decoder, an unknown kind among
/// them, is an invalid-format error. For the others it is what reading the
/// directory at the position of the stream gives.
pub open spec fn decoded(stream: StreamView) -> Result<DirectoryView, Error> {
    match classification(stream.data) {
        Err(e) => Err(e),
        Ok(kind) => if has_directory(kind) {
            parsed_directory(stream)
        } else {
            Err(Error::InvalidFormat)
        },
    }
}

/// Where decoding leaves `stream`: where parsing the directory left it,
/// or untouched if no directory was parsed.
pub open spec fn after_decoding(stream: StreamView) -> StreamView {
    match classification(stream.data) {
        Err(e) => stream,
        Ok(kind) => if has_directory(kind) {
            after_directory(stream)
        } else {
            stream
        },
    }
}

/// Decodes a font file: detects the kind of file without moving the
/// stream, and reads the table directory if that kind has one.
///
/// For every other kind the result is the invalid-format error, and
/// nothing is parsed.
pub fn decode_font_file(stream: &mut FontDataStream) -> (res: Result<SnftTable, Error>)
    ensures
        (match res {
            Ok(table) => decoded(old(stream)@) == Ok::<DirectoryView, Error>(table@),
            Err(e) => decoded(old(stream)@) == Err::<DirectoryView, Error>(e),
        }),
        final(stream)@ == after_decoding(old(stream)@),
{
    let kind: FontFileHeader = match decode_font_type(stream) {
        Ok(kind) => kind,
        Err(e) => {
            return Err(e);
        },
    };
    match kind {
        FontFileHeader::SFNT => decode_font_ttf(stream),
        FontFileHeader::TRUE => decode_font_ttf(stream),
        FontFileHeader::OTTO => decode_font_otf(stream),
        _ => Err(Error::InvalidFormat),
    }
}

/// Whether the library's error `x` may be what the sink's error `e` is
/// converted into: any error, unless the conversion says what it gives,
/// and then that one.
pub open spec fn converts_to<E: Into<Error>>(e: E, x: Error) -> bool {
    <E as IntoSpec<Error>>::obeys_into_spec() ==> x == <E as IntoSpec<Error>>::into_spec(e)
}

/// Turns what a sink returned into the result of decoding: its value as
/// it is, its error converted into the library's.
pub fn sink_outcome<T, E: Into<Error>>(returned: Result<T, E>) -> (res: Result<T, Error>)
    ensures
        (match returned {
            Ok(value) => res == Ok::<T, Error>(value),
            Err(e) => res matches Err(x) && converts_to(e, x),
        }),
{
    match returned {
        Ok(value) => Ok(value),
        Err(e) => Err(e.into()),
    }
}

/// Whether `sink`, handed the directory `directory`, refused it with the
/// error `e`.
pub open spec fn sink_refused<S: FontSink>(sink: S, directory: DirectoryView, e: S::Err) -> bool {
    exists|m: &mut S, t: SnftTable|
        t@ == directory && *m == sink && #[trigger] call_ensures(
            <S as FontSink>::consume_snft,
            (m, t),
            Err::<(), S::Err>(e),
        )
}

/// Decodes a font file into `sink`.
///
/// If decoding fails, by the kind of file or while parsing, that error is
/// returned and the sink is never called. Otherwise the sink is handed
/// the directory and then asked to finish. A success is what `finish`
/// returned. A failure is the error of the step of the sink that failed,
/// converted into the library's: that of `consume_snft`, after which
/// `finish` is not called, or that of `finish`.
pub fn decode_into<S>(stream: &mut FontDataStream, sink: S) -> (res: Result<S::Output, Error>)
    where S: FontSink, S::Err: Into<Error>
    ensures
        decoded(old(stream)@) matches Err(e) ==> res matches Err(x) && x == e,
        decoded(old(stream)@) is Ok ==> (match res {
            Ok(output) => exists|m: &mut S, t: SnftTable|
                t@ == decoded(old(stream)@)->Ok_0 && *m == sink && #[trigger] call_ensures(
                    <S as FontSink>::consume_snft,
                    (m, t),
                    Ok::<(), S::Err>(()),
                ) && call_ensures(
                    <S as FontSink>::finish,
                    (*final(m), ),
                    Ok::<S::Output, S::Err>(output),
                ),
            Err(x) => exists|e: S::Err|
                {
                    &&& #[trigger] converts_to(e, x)
                    &&& sink_refused(sink, decoded(old(stream)@)->Ok_0, e) || exists|
                        m: &mut S,
                        t: SnftTable,
                    |
                        t@ == decoded(old(stream)@)->Ok_0 && *m == sink && #[trigger] call_ensures(
                            <S as FontSink>::consume_snft,
                            (m, t),
                            Ok::<(), S::Err>(()),
                        ) && #[trigger] call_ensures(
                            <S as FontSink>::finish,
                            (*final(m), ),
                            Err::<S::Output, S::Err>(e),
                        )
                },
        }),
        final(stream)@ == after_decoding(old(stream)@),
{
    let ghost given: S = sink;
    let ghost start: StreamView = stream@;
    let mut sink: S = sink;
    let snft: SnftTable = match decode_font_file(stream) {
        Ok(snft) => snft,
        Err(e) => {
            return Err(e);
        },
    };
    let consumed: Result<(), S::Err> = sink.consume_snft(snft);
    match consumed {
        Ok(()) => {},
        Err(e) => {
            proof {
                assert(consumed == Err::<(), S::Err>(e));
                assert(sink_refused(given, decoded(start)->Ok_0, e));
            }
            return sink_outcome(Err(e));
        },
    }
    let finished: Result<S::Output, S::Err> = sink.finish();
    proof {
        assert(consumed->Ok_0 == ());
        assert(consumed == Ok::<(), S::Err>(()));
        if finished is Ok {
            assert(finished == Ok::<S::Output, S::Err>(finished->Ok_0));
        } else {
            assert(finished == Err::<S::Output, S::Err>(finished->Err_0));
        }
    }
    sink_outcome(finished)
}

/// Decodes a font file into the library's own `Font`: the font holds the
/// records of the directory, in file order, and no SVG data.
pub fn decode(stream: &mut FontDataStream) -> (res: Result<Font, Error>)
    ensures
        (match res {
            Ok(font) => {
                &&& decoded(old(stream)@) is Ok
                &&& font.snft_tables@ == decoded(old(stream)@)->Ok_0.tables
                &&& font.svg_data is None
            },
            Err(e) => decoded(old(stream)@) == Err::<DirectoryView, Error>(e),
        }),
        final(stream)@ == after_decoding(old(stream)@),
{
    let font: Font = Font::new();
    decode_into(stream, font)
}

/// Data with the WOFF signature is not decoded: the result is the
/// invalid-format error, and the stream stays where it was, so that no
/// directory was parsed.
pub proof fn lemma_woff_is_unsupported(stream: StreamView)
    requires
        stream.data.len() >= 4,
        stream.data.subrange(0, 4) =~= seq![0x77u8, 0x4Fu8, 0x46u8, 0x46u8],
    ensures
        decoded(stream) == Err::<DirectoryView, Error>(Error::InvalidFormat),
        after_decoding(stream) == stream,
{
    let head: Seq<u8> = stream.data.subrange(0, 4);
    assert(head[0] == stream.data[0] && head[1] == stream.data[1] && head[2] == stream.data[2]
        && head[3] == stream.data[3]);
}

/// Data too short to hold a signature is not decoded either: the result
/// is the out-of-bounds error of classification.
pub proof fn lemma_short_data_is_not_decoded(stream: StreamView)
    requires
        stream.data.len() < 4,
    ensures
        decoded(stream) == Err::<DirectoryView, Error>(out_of_bounds(4, stream.data.len())),
        after_decoding(stream) == stream,
{
}

} // verus!
