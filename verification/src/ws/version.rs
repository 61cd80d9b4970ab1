//! The protocol version handshake: what both sides say, and what they make of it.
use vstd::prelude::*;
use vstd::string::*;

use crate::text;
use crate::text::{contains, joined, strip_prefix, strip_prefixes, trim};
use crate::utils;

verus! {

/// What a client says first: the protocol's name and its version.
pub open spec fn hello(name: Seq<char>, version: Seq<char>) -> Seq<char> {
    name + " "@ + version
}

/// Writes what a client says first.
pub fn hello_text(name: &str, version: &str) -> (r: String)
    ensures
        r@ == hello(name@, version@),
{
    let mut text = joined(name, " ");
    text.append(version);
    text
}

/// What a server answers to a client that it does not take.
pub open spec fn rejection(version: Seq<char>) -> Seq<char> {
    "PROTOCOL_REJECTED "@ + version
}

/// Writes what a server answers to a client that it does not take.
pub fn rejection_text(version: &str) -> (r: String)
    ensures
        r@ == rejection(version@),
{
    joined("PROTOCOL_REJECTED ", version)
}

/// What a client makes of the server's answer.
pub enum ReplyVerdict {
    /// The server takes the client.
    Accepted,
    /// The server speaks another version.
    Rejected { server: String },
    /// The answer is none.
    Invalid,
}

/// The model of a `ReplyVerdict`.
pub enum ReplyModel {
    Accepted,
    Rejected { server: Seq<char> },
    Invalid,
}

impl View for ReplyVerdict {
    type V = ReplyModel;

    open spec fn view(&self) -> ReplyModel {
        match *self {
            ReplyVerdict::Accepted => ReplyModel::Accepted,
            ReplyVerdict::Rejected { server } => ReplyModel::Rejected { server: server@ },
            ReplyVerdict::Invalid => ReplyModel::Invalid,
        }
    }
}

/// The version that a rejection names: what follows its first word, or else `unknown`.
pub open spec fn rejecting_version(reply: Seq<char>) -> Seq<char> {
    text::trimmed(
        if "PROTOCOL_REJECTED "@.is_prefix_of(reply) {
            reply.skip("PROTOCOL_REJECTED "@.len() as int)
        } else {
            "unknown"@
        },
    )
}

/// What a client makes of an answer: the words count wherever they stand in it.
pub open spec fn reply_verdict(reply: Seq<char>) -> ReplyModel {
    if text::occurs_in("PROTOCOL_ACCEPTED"@, reply) {
        ReplyModel::Accepted
    } else if text::occurs_in("PROTOCOL_REJECTED"@, reply) {
        ReplyModel::Rejected { server: rejecting_version(reply) }
    } else {
        ReplyModel::Invalid
    }
}

/// Judges the server's answer.
pub fn judge_reply(reply: &str) -> (r: ReplyVerdict)
    ensures
        r@ == reply_verdict(reply@),
{
    if contains(reply, "PROTOCOL_ACCEPTED") {
        ReplyVerdict::Accepted
    } else if contains(reply, "PROTOCOL_REJECTED") {
        let version = match strip_prefix(reply, "PROTOCOL_REJECTED ") {
            Some(rest) => rest,
            None => "unknown",
        };
        ReplyVerdict::Rejected { server: trim(version) }
    } else {
        ReplyVerdict::Invalid
    }
}

/// What a server makes of a client's first words.
pub enum HelloVerdict {
    /// Name and version are the server's own.
    Accepted,
    /// The client speaks another protocol.
    OtherProtocol,
    /// The client speaks another version.
    OtherVersion { client: String },
}

/// The model of a `HelloVerdict`.
pub enum HelloModel {
    Accepted,
    OtherProtocol,
    OtherVersion { client: Seq<char> },
}

impl View for HelloVerdict {
    type V = HelloModel;

    open spec fn view(&self) -> HelloModel {
        match *self {
            HelloVerdict::Accepted => HelloModel::Accepted,
            HelloVerdict::OtherProtocol => HelloModel::OtherProtocol,
            HelloVerdict::OtherVersion { client } => HelloModel::OtherVersion { client: client@ },
        }
    }
}

/// What a server makes of a client's first words: they have to start with the protocol's name and
/// a space; what is left behind any repetition of these, without white space around it, is the
/// client's version.
pub open spec fn hello_verdict(
    text: Seq<char>,
    name: Seq<char>,
    version: Seq<char>,
) -> HelloModel {
    let prefix = name + " "@;
    let client = text::trimmed(text::without_prefixes(text, prefix));
    if !prefix.is_prefix_of(text) {
        HelloModel::OtherProtocol
    } else if client == version {
        HelloModel::Accepted
    } else {
        HelloModel::OtherVersion { client }
    }
}

/// Judges a client's first words.
pub fn judge_hello(text: &str, name: &str, version: &str) -> (r: HelloVerdict)
    ensures
        r@ == hello_verdict(text@, name@, version@),
{
    let prefix = joined(name, " ");
    if strip_prefix(text, prefix.as_str()).is_none() {
        return HelloVerdict::OtherProtocol;
    }
    let client = trim(strip_prefixes(text, prefix.as_str()));
    if client == version.to_owned() {
        HelloVerdict::Accepted
    } else {
        HelloVerdict::OtherVersion { client }
    }
}

proof fn lemma_protocol_string_is_trimmed(s: Seq<char>)
    requires
        utils::is_protocol_string(s),
    ensures
        text::trimmed(s) == s,
{
    if s.len() > 0 {
        assert(utils::is_protocol_char(s[0]));
        assert(utils::is_protocol_char(s[s.len() - 1]));
    }
}

/// The version handshake is sound: a server accepts exactly the clients that speak its protocol in
/// its version. To another version it answers that it has it; to another protocol too.
pub proof fn law_server_accepts_its_own_version(
    client_name: Seq<char>,
    client_version: Seq<char>,
    name: Seq<char>,
    version: Seq<char>,
)
    requires
        utils::is_protocol_string(client_name),
        utils::is_protocol_string(client_version),
        utils::is_protocol_string(name),
        utils::is_protocol_string(version),
    ensures
        hello_verdict(hello(client_name, client_version), name, version) == (if client_name
            != name {
            HelloModel::OtherProtocol
        } else if client_version != version {
            HelloModel::OtherVersion { client: client_version }
        } else {
            HelloModel::Accepted
        }),
{
    reveal_strlit(" ");
    let text = hello(client_name, client_version);
    let prefix = name + " "@;
    if client_name == name {
        assert(prefix.is_prefix_of(text));
        assert(text.skip(prefix.len() as int) =~= client_version);
        if prefix.is_prefix_of(client_version) {
            assert(client_version[name.len() as int] == prefix[name.len() as int]);
            assert(utils::is_protocol_char(client_version[name.len() as int]));
        }
        assert(text::without_prefixes(text, prefix) == text::without_prefixes(
            client_version,
            prefix,
        ));
        assert(text::without_prefixes(client_version, prefix) == client_version);
        lemma_protocol_string_is_trimmed(client_version);
    } else if prefix.is_prefix_of(text) {
        assert(text[name.len() as int] == prefix[name.len() as int]);
        assert(text[client_name.len() as int] == ' ');
        if name.len() < client_name.len() {
            assert(utils::is_protocol_char(client_name[name.len() as int]));
            assert(text[name.len() as int] == client_name[name.len() as int]);
        } else if client_name.len() < name.len() {
            assert(utils::is_protocol_char(name[client_name.len() as int]));
            assert(text[client_name.len() as int] == name[client_name.len() as int]);
        }
        assert(client_name =~= name) by {
            assert forall|i: int| 0 <= i < name.len() implies client_name[i] == name[i] by {
                assert(text[i] == prefix[i]);
            }
        }
    }
}

/// A client takes the server's acceptance as one.
pub proof fn law_acceptance_is_understood()
    ensures
        reply_verdict("PROTOCOL_ACCEPTED"@) is Accepted,
{
    let word = "PROTOCOL_ACCEPTED"@;
    assert(word.is_prefix_of(word));
    text::lemma_prefix_occurs(word, word);
}

/// A client takes the server's rejection as one and learns the server's version from it, unless
/// the version itself holds the word of acceptance.
pub proof fn law_rejection_is_understood(version: Seq<char>)
    requires
        utils::is_protocol_string(version),
        !text::occurs_in("PROTOCOL_ACCEPTED"@, version),
    ensures
        reply_verdict(rejection(version)) == (ReplyModel::Rejected { server: version }),
{
    reveal_strlit("PROTOCOL_ACCEPTED");
    reveal_strlit("PROTOCOL_REJECTED");
    reveal_strlit("PROTOCOL_REJECTED ");
    let accepted = "PROTOCOL_ACCEPTED"@;
    let rejected = "PROTOCOL_REJECTED"@;
    let head = "PROTOCOL_REJECTED "@;
    let reply = rejection(version);
    assert forall|i: int|
        0 <= i <= reply.len() - accepted.len() implies #[trigger] reply.subrange(
        i,
        i + accepted.len(),
    ) != accepted by {
        let piece = reply.subrange(i, i + accepted.len());
        if i >= head.len() {
            assert(piece =~= version.subrange(
                i - head.len(),
                i - head.len() + accepted.len(),
            ));
        } else if i == 0 {
            assert(piece[9] == 'R');
            assert(accepted[9] == 'A');
        } else {
            assert(piece[0] == head[i]);
            assert(accepted[0] == 'P');
        }
    }
    assert(rejected.is_prefix_of(reply));
    text::lemma_prefix_occurs(rejected, reply);
    assert(head.is_prefix_of(reply));
    assert(reply.skip(head.len() as int) =~= version);
    lemma_protocol_string_is_trimmed(version);
}

/// What a client makes of any answer: one that holds the word of acceptance, anywhere, accepts;
/// else one that holds the word of rejection rejects, with the version that stands behind that
/// word at its start, and any other answer is none.
pub proof fn law_answers_are_told_apart(reply: Seq<char>)
    ensures
        ({
            let accepts = text::is_around("PROTOCOL_ACCEPTED"@, reply);
            let rejects = text::is_around("PROTOCOL_REJECTED"@, reply);
            let verdict = reply_verdict(reply);
            &&& verdict is Accepted <==> accepts
            &&& verdict is Rejected <==> rejects && !accepts
            &&& verdict is Invalid <==> !rejects && !accepts
        }),
{
    text::law_occurrences_are_found("PROTOCOL_ACCEPTED"@, reply);
    text::law_occurrences_are_found("PROTOCOL_REJECTED"@, reply);
}

/// The version that a rejection names is what follows the word and a space, without white space
/// around it; a rejection that does not begin so leaves the version unknown.
pub proof fn law_rejection_names_the_version(rest: Seq<char>, reply: Seq<char>)
    ensures
        reply_verdict("PROTOCOL_REJECTED "@ + rest) matches ReplyModel::Rejected { server }
            ==> server == text::trimmed(rest),
        !"PROTOCOL_REJECTED "@.is_prefix_of(reply) ==> (reply_verdict(
            reply,
        ) matches ReplyModel::Rejected { server } ==> server == "unknown"@),
{
    let head = "PROTOCOL_REJECTED "@;
    assert(head.is_prefix_of(head + rest));
    assert((head + rest).skip(head.len() as int) =~= rest);
    reveal_strlit("unknown");
    let unknown = "unknown"@;
    assert(text::trimmed_start(unknown) == unknown);
    assert(text::trimmed(unknown) == unknown);
}

/// What a server makes of any first words: without the protocol's name and a space at their start
/// they belong to another protocol; the name may be repeated, and white space around the version
/// does not matter, but the version has to be the server's own to the letter.
pub proof fn law_first_words_are_judged_by_the_version(
    rest: Seq<char>,
    text: Seq<char>,
    name: Seq<char>,
    version: Seq<char>,
)
    ensures
        hello_verdict(text, name, version) is OtherProtocol <==> !(name + " "@).is_prefix_of(text),
        (name + " "@).is_prefix_of(text) ==> hello_verdict(name + " "@ + text, name, version)
            == hello_verdict(text, name, version),
        !(name + " "@).is_prefix_of(rest) ==> hello_verdict(name + " "@ + rest, name, version)
            == if text::trimmed(rest) == version {
            HelloModel::Accepted
        } else {
            HelloModel::OtherVersion { client: text::trimmed(rest) }
        },
{
    reveal_strlit(" ");
    let prefix = name + " "@;
    assert(prefix.is_prefix_of(prefix + text));
    assert(prefix.is_prefix_of(prefix + rest));
    text::law_repeated_prefixes_go(text, prefix);
    text::law_repeated_prefixes_go(rest, prefix);
}

} // verus!
