//! Resolution of the destination file name: the content-disposition
//! header's filename parameter when one decodes, else the last path
//! segment of the URL, with directory components stripped in all cases as
//! a defense against traversal.

use vstd::prelude::*;
use vstd::string::{StrSliceExecFns, StringExecFns};
use vstd::utf8::{decode_utf8, valid_utf8};
use crate::errors::DownloadError;

verus! {

/// One parameter of a content-disposition header: a filename carried as
/// raw bytes, or any other parameter, which naming ignores.
pub enum DispositionParam {
    Filename(Vec<u8>),
    Ext,
}

/// Relies on str::from_utf8: it accepts exactly the byte sequences that
/// are valid UTF-8, and decodes them to their characters.
#[verifier::external_body]
fn utf8_to_string(bytes: &Vec<u8>) -> (r: Option<String>)
    ensures
        r is Some <==> valid_utf8(bytes@),
        r matches Some(s) ==> s@ == decode_utf8(bytes@),
{
    match std::str::from_utf8(bytes.as_slice()) {
        Ok(s) => Some(s.to_owned()),
        Err(_) => None,
    }
}

/// The first filename parameter whose bytes decode as UTF-8, if any.
pub open spec fn first_decodable(params: Seq<DispositionParam>) -> Option<Seq<char>>
    decreases params.len(),
{
    if params.len() == 0 {
        None
    } else {
        match params[0] {
            DispositionParam::Filename(bytes) => if valid_utf8(bytes@) {
                Some(decode_utf8(bytes@))
            } else {
                first_decodable(params.skip(1))
            },
            DispositionParam::Ext => first_decodable(params.skip(1)),
        }
    }
}

/// Reads the server-suggested file name: the first filename parameter of
/// the content-disposition header that decodes as UTF-8.  A missing
/// header, and a header without such a parameter, are rejected.
pub fn parse_file_name(disposition: &Option<Vec<DispositionParam>>) -> (r: Result<
    String,
    DownloadError,
>)
    ensures
        match disposition {
            Some(params) => match first_decodable(params@) {
                Some(name) => r matches Ok(s) && s@ == name,
                None => r matches Err(e) && e.0@ == "server did not provide a file name"@,
            },
            None => r matches Err(e) && e.0@ == "server did not provide a file name"@,
        },
{
    match disposition {
        Some(params) => {
            let mut i: usize = 0;
            proof {
                assert(params@.skip(0) =~= params@);
            }
            while i < params.len()
                invariant
                    disposition matches Some(ps) && ps@ == params@,
                    i <= params@.len(),
                    first_decodable(params@) == first_decodable(params@.skip(i as int)),
                decreases params@.len() - i,
            {
                proof {
                    assert(params@.skip(i as int)[0] == params@[i as int]);
                    assert(params@.skip(i as int).skip(1) =~= params@.skip(i as int + 1));
                }
                match &params[i] {
                    DispositionParam::Filename(bytes) => {
                        match utf8_to_string(bytes) {
                            Some(name) => {
                                proof {
                                    assert(first_decodable(params@.skip(i as int)) == Some(
                                        decode_utf8(bytes@),
                                    ));
                                }
                                return Ok(name);
                            },
                            None => {},
                        }
                    },
                    DispositionParam::Ext => {},
                }
                i = i + 1;
            }
            proof {
                assert(params@.skip(params@.len() as int) =~= Seq::<DispositionParam>::empty());
            }
            Err(DownloadError("server did not provide a file name".to_owned()))
        },
        None => Err(DownloadError("server did not provide a file name".to_owned())),
    }
}

/// The part of a name after its last directory separator: empty when the
/// name ends in a separator, the whole name when it has none.
pub open spec fn file_part(s: Seq<char>) -> Seq<char>
    decreases s.len(),
{
    if s.len() == 0 {
        s
    } else if s.last() == '/' {
        Seq::empty()
    } else {
        file_part(s.drop_last()).push(s.last())
    }
}

/// A usable file name: nonempty once stripped, and not a relative
/// directory reference.
pub open spec fn spec_valid_name(p: Seq<char>) -> bool {
    p.len() > 0 && p != "."@ && p != ".."@
}

proof fn lemma_file_part_is_suffix(s: Seq<char>, cut: int)
    requires
        0 <= cut <= s.len(),
        forall|j: int| cut <= j < s.len() ==> s[j] != '/',
        cut > 0 ==> s[cut - 1] == '/',
    ensures
        file_part(s) == s.subrange(cut, s.len() as int),
    decreases s.len(),
{
    if s.len() == 0 {
        assert(s.subrange(0, 0) =~= s);
    } else if s.last() == '/' {
        assert(cut == s.len());
        assert(s.subrange(cut, s.len() as int) =~= Seq::<char>::empty());
    } else {
        assert(cut < s.len());
        lemma_file_part_is_suffix(s.drop_last(), cut);
        assert(s.drop_last().subrange(cut, s.len() - 1).push(s.last()) =~= s.subrange(
            cut,
            s.len() as int,
        ));
    }
}

/// Strips every directory component from `name` and keeps what follows
/// the last separator; a name that leaves nothing usable — empty, `.` or
/// `..`, or ending in a separator — is rejected.
pub fn sanitize_file_name(name: &str) -> (r: Result<String, DownloadError>)
    ensures
        spec_valid_name(file_part(name@)) ==> (r matches Ok(s) && s@ == file_part(name@)),
        !spec_valid_name(file_part(name@)) ==> (r matches Err(e) && e.0@ == "invalid file name"@),
{
    let n = name.unicode_len();
    let mut cut: usize = 0;
    let mut i: usize = 0;
    while i < n
        invariant
            n == name@.len(),
            cut <= i <= n,
            forall|j: int| cut <= j < i ==> name@[j] != '/',
            cut > 0 ==> name@[cut - 1] == '/',
        decreases n - i,
    {
        let c = name.get_char(i);
        if c == '/' {
            cut = i + 1;
        }
        i = i + 1;
    }
    proof {
        lemma_file_part_is_suffix(name@, cut as int);
        reveal_strlit(".");
        reveal_strlit("..");
    }
    let part = name.substring_char(cut, n);
    let plen = n - cut;
    let dot = plen == 1 && part.get_char(0) == '.';
    let dotdot = plen == 2 && part.get_char(0) == '.' && part.get_char(1) == '.';
    if plen == 0 || dot || dotdot {
        proof {
            if plen == 1 && part@[0] == '.' {
                assert(part@ =~= "."@);
            }
            if plen == 2 && part@[0] == '.' && part@[1] == '.' {
                assert(part@ =~= ".."@);
            }
        }
        Err(DownloadError("invalid file name".to_owned()))
    } else {
        proof {
            if part@ == "."@ {
                assert(part@.len() == 1 && part@[0] == '.');
            }
            if part@ == ".."@ {
                assert(part@.len() == 2 && part@[0] == '.' && part@[1] == '.');
            }
        }
        Ok(part.to_owned())
    }
}

/// The raw destination name before stripping: the server-suggested name
/// when one decodes, else the last path segment of the URL.
pub open spec fn resolved_raw_name(
    disposition: Option<Vec<DispositionParam>>,
    url_path_segments: Seq<String>,
) -> Seq<char> {
    match disposition {
        Some(params) => match first_decodable(params@) {
            Some(name) => name,
            None => url_path_segments.last()@,
        },
        None => url_path_segments.last()@,
    }
}

/// Resolves the destination file name for a server-named download: the
/// content-disposition filename when one decodes, else the last path
/// segment of the URL, stripped of directory components in either case.
pub fn default_file_name(
    disposition: &Option<Vec<DispositionParam>>,
    url_path_segments: &Vec<String>,
) -> (r: Result<String, DownloadError>)
    requires
        url_path_segments@.len() >= 1,
    ensures
        ({
            let raw = file_part(resolved_raw_name(*disposition, url_path_segments@));
            &&& spec_valid_name(raw) ==> (r matches Ok(s) && s@ == raw)
            &&& !spec_valid_name(raw) ==> (r matches Err(e) && e.0@ == "invalid file name"@)
        }),
{
    let raw: String = match parse_file_name(disposition) {
        Ok(name) => name,
        Err(_) => url_path_segments[url_path_segments.len() - 1].clone(),
    };
    sanitize_file_name(raw.as_str())
}

} // verus!
