//! Audio to transcribe.
use vstd::prelude::*;

use crate::api::ApiError;
use crate::text::{
    lemma_split_append, lemma_split_plain, opt_text, split_at_char, split_char, str_eq, texts,
};

verus! {

/// A transcription.
#[derive(Debug)]
pub struct TranscribeResponse {
    pub text: String,
}

/// A part of a multipart body.
#[derive(Debug)]
pub struct Part {
    pub name: Option<String>,
    pub content_type: Option<String>,
    pub bytes: Vec<u8>,
}

/// The format that a content type names, as in `audio/webm;codecs=opus`; the
/// one before where it names none.
pub open spec fn format_in(content_type: Option<Seq<char>>, before: Seq<char>) -> Seq<char> {
    match content_type {
        Some(t) => {
            let parts = split_at_char(t, '/');
            if parts.len() > 1 {
                split_at_char(parts[1], ';')[0]
            } else {
                before
            }
        },
        None => before,
    }
}

/// Whether a part holds audio.
pub open spec fn is_audio(p: Part) -> bool {
    opt_text(p.name) == Some("audio"@)
}

/// The format of the audio among the parts: `webm` unless a part names
/// another.
pub open spec fn format_of(parts: Seq<Part>) -> Seq<char>
    decreases parts.len(),
{
    if parts.len() == 0 {
        "webm"@
    } else {
        let before = format_of(parts.drop_last());
        if is_audio(parts.last()) {
            format_in(opt_text(parts.last().content_type), before)
        } else {
            before
        }
    }
}

/// The audio among the parts: the last part that holds any.
pub open spec fn audio_of(parts: Seq<Part>) -> Option<Seq<u8>>
    decreases parts.len(),
{
    if parts.len() == 0 {
        None
    } else if is_audio(parts.last()) {
        Some(parts.last().bytes@)
    } else {
        audio_of(parts.drop_last())
    }
}

fn pick_format(content_type: &Option<String>, before: String) -> (r: String)
    ensures
        r@ == format_in(opt_text(*content_type), before@),
{
    match content_type {
        Some(t) => {
            let parts: Vec<String> = split_char(t.as_str(), '/');
            assert(texts(parts@).len() == parts@.len());
            if parts.len() > 1 {
                let mut pieces: Vec<String> = split_char(parts[1].as_str(), ';');
                assert(texts(parts@)[1] == parts@[1]@);
                assert(texts(pieces@)[0] == pieces@[0]@);
                pieces.remove(0)
            } else {
                before
            }
        },
        None => before,
    }
}

/// The audio to transcribe and its format. `configured` says whether there is
/// a model to transcribe it.
pub fn transcribe_audio(configured: bool, parts: Vec<Part>) -> (r: Result<
    (Vec<u8>, String),
    ApiError,
>)
    ensures
        if !configured {
            r matches Err(e) && e.is_bad_request("no transcription model configured"@)
        } else {
            match audio_of(parts@) {
                None => r matches Err(e) && e.is_bad_request(
                    "missing 'audio' field in multipart body"@,
                ),
                Some(audio) => if audio.len() == 0 {
                    r matches Err(e) && e.is_bad_request("audio field is empty"@)
                } else {
                    r matches Ok((bytes, format)) && bytes@ == audio && format@ == format_of(parts@)
                },
            }
        },
{
    if !configured {
        return Err(ApiError::bad_request("no transcription model configured"));
    }
    let ghost all = parts@;
    let mut rest: Vec<Part> = parts;
    let mut audio: Option<Vec<u8>> = None;
    let mut format: String = "webm".to_owned();
    let ghost mut n: int = 0;
    assert(all.skip(0) =~= all);
    while rest.len() > 0
        invariant
            0 <= n <= all.len(),
            rest@ == all.skip(n),
            format@ == format_of(all.take(n)),
            match audio {
                Some(a) => audio_of(all.take(n)) == Some(a@),
                None => audio_of(all.take(n)) is None,
            },
        decreases rest@.len(),
    {
        let part: Part = rest.remove(0);
        proof {
            assert(part == all[n]);
            assert(all.skip(n).remove(0) =~= all.skip(n + 1));
            assert(all.take(n + 1).drop_last() =~= all.take(n));
            n = n + 1;
        }
        let named: bool = match &part.name {
            Some(t) => str_eq(t.as_str(), "audio"),
            None => false,
        };
        if named {
            format = pick_format(&part.content_type, format);
            audio = Some(part.bytes);
        }
    }
    assert(all.take(n) =~= all);
    match audio {
        None => Err(ApiError::bad_request("missing 'audio' field in multipart body")),
        Some(bytes) => if bytes.len() == 0 {
            Err(ApiError::bad_request("audio field is empty"))
        } else {
            Ok((bytes, format))
        },
    }
}

/// The status that tells whether audio can be transcribed.
pub fn has_transcribe(configured: bool) -> (r: u16)
    ensures
        r == if configured {
            204u16
        } else {
            404u16
        },
{
    if configured {
        204
    } else {
        404
    }
}

/// What is transcribed: the bytes of the last part called `audio`, where there
/// is a model, such a part, and something in it.
pub proof fn law_what_is_transcribed(configured: bool, parts: Vec<Part>, r: Result<(Vec<u8>, String), ApiError>, i: int)
    requires
        call_ensures(transcribe_audio, (configured, parts), r),
    ensures
        !configured ==> r is Err && r->Err_0.message@ == "no transcription model configured"@,
        r matches Err(e) ==> e.status == 400,
        configured && (forall|k: int|
            0 <= k < parts@.len() ==> !is_audio(#[trigger] parts@[k])) ==> r is Err
            && r->Err_0.message@ == "missing 'audio' field in multipart body"@,
        configured && 0 <= i < parts@.len() && (parts@[i].name is Some && parts@[i].name->Some_0@
            == "audio"@) && (forall|k: int|
            i < k < parts@.len() ==> !((#[trigger] parts@[k]).name is Some
                && parts@[k].name->Some_0@ == "audio"@)) ==> if parts@[i].bytes@.len() == 0 {
            r is Err && r->Err_0.message@ == "audio field is empty"@
        } else {
            r is Ok && r->Ok_0.0@ == parts@[i].bytes@
        },
{
    lemma_audio_of(parts@);
    if 0 <= i < parts@.len() && is_audio(parts@[i]) && (forall|k: int|
        i < k < parts@.len() ==> !((#[trigger] parts@[k]).name is Some && parts@[k].name->Some_0@
            == "audio"@)) {
        assert forall|k: int| i < k < parts@.len() implies !is_audio(#[trigger] parts@[k]) by {
            assert(!(parts@[k].name is Some && parts@[k].name->Some_0@ == "audio"@));
        }
        assert(audio_of(parts@) == Some(parts@[i].bytes@));
    }
}

proof fn lemma_audio_of(parts: Seq<Part>)
    ensures
        (forall|k: int| 0 <= k < parts.len() ==> !is_audio(#[trigger] parts[k])) ==> audio_of(parts)
            is None && format_of(parts) == "webm"@,
        forall|i: int|
            0 <= i < parts.len() && is_audio(#[trigger] parts[i]) && (forall|k: int|
                i < k < parts.len() ==> !is_audio(#[trigger] parts[k])) ==> audio_of(parts) == Some(
                parts[i].bytes@,
            ),
    decreases parts.len(),
{
    if parts.len() > 0 {
        let rest = parts.drop_last();
        lemma_audio_of(rest);
        if forall|k: int| 0 <= k < parts.len() ==> !is_audio(#[trigger] parts[k]) {
            assert(!is_audio(parts[parts.len() - 1]));
            assert forall|k: int| 0 <= k < rest.len() implies !is_audio(#[trigger] rest[k]) by {
                assert(!is_audio(parts[k]));
            }
        }
        assert forall|i: int|
            0 <= i < parts.len() && is_audio(#[trigger] parts[i]) && (forall|k: int|
                i < k < parts.len() ==> !is_audio(#[trigger] parts[k])) implies audio_of(parts)
            == Some(parts[i].bytes@) by {
            if i < parts.len() - 1 {
                assert(!is_audio(parts[parts.len() - 1]));
                assert(rest[i] == parts[i]);
                assert forall|k: int| i < k < rest.len() implies !is_audio(#[trigger] rest[k]) by {
                    assert(!is_audio(parts[k]));
                }
            }
        }
    }
}

/// The format of the audio: what its type says behind the slash, up to a
/// semicolon; `webm` where it says nothing.
pub proof fn law_audio_formats(parts: Vec<Part>, r: Result<(Vec<u8>, String), ApiError>, main: Seq<char>, sub: Seq<char>, rest: Seq<char>)
    requires
        call_ensures(transcribe_audio, (true, parts), r),
        parts@.len() == 1,
        parts@[0].name is Some && parts@[0].name->Some_0@ == "audio"@,
        parts@[0].bytes@.len() > 0,
        forall|i: int| 0 <= i < main.len() ==> #[trigger] main[i] != '/',
        forall|i: int| 0 <= i < sub.len() ==> #[trigger] sub[i] != '/' && sub[i] != ';',
        forall|i: int| 0 <= i < rest.len() ==> #[trigger] rest[i] != '/' && rest[i] != ';',
    ensures
        r is Ok,
        parts@[0].content_type is None ==> r->Ok_0.1@ == "webm"@,
        parts@[0].content_type matches Some(t) ==> {
            &&& t@ == main ==> r->Ok_0.1@ == "webm"@
            &&& t@ == main + seq!['/'] + sub ==> r->Ok_0.1@ == sub
            &&& t@ == main + seq!['/'] + (sub + seq![';'] + rest) ==> r->Ok_0.1@ == sub
        },
{
    let all = parts@;
    assert(all.drop_last() =~= Seq::<Part>::empty());
    assert(is_audio(all.last()));
    assert(format_of(all.drop_last()) == "webm"@);
    assert(audio_of(all) == Some(all[0].bytes@));
    lemma_split_plain(main, '/');
    lemma_split_plain(sub, '/');
    lemma_split_plain(sub, ';');
    lemma_split_plain(rest, ';');
    lemma_split_append(main, sub, '/');
    lemma_split_append(sub, rest, ';');
    let tail = sub + seq![';'] + rest;
    assert forall|i: int| 0 <= i < tail.len() implies #[trigger] tail[i] != '/' by {
        if i < sub.len() {
            assert(tail[i] == sub[i]);
        } else if i > sub.len() {
            assert(tail[i] == rest[i - sub.len() - 1]);
        }
    }
    lemma_split_plain(tail, '/');
    lemma_split_append(main, tail, '/');
    if all[0].content_type is Some {
        let t = all[0].content_type->Some_0@;
        if t == main + seq!['/'] + sub {
            assert(split_at_char(t, '/')[1] == sub);
        }
        if t == main + seq!['/'] + tail {
            assert(split_at_char(t, '/')[1] == tail);
        }
    }
}

/// Whether there is a model for audio is told by the status.
pub proof fn law_audio_models(configured: bool, r: u16)
    requires
        call_ensures(has_transcribe, (configured,), r),
    ensures
        configured ==> r == 204,
        !configured ==> r == 404,
{
}

} // verus!
