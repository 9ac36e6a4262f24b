//! The networks that the CLI knows, and whether they can be reached.

use crate::error::Error;
use crate::print;
use crate::print::{Mark, Print};
use crate::text;
use crate::text::{number, quoted, same_text};
use vstd::prelude::*;

verus! {

/// A network, as far as the report shows it.
#[derive(Debug)]
pub struct Network {
    /// The address of its RPC server, with what is secret in it left out.
    pub shown_url: String,
}

/// What the RPC server of a network says of itself.
#[derive(Debug)]
pub struct VersionInfo {
    pub protocol_version: u32,
    pub version: String,
}

/// What a network is called at the start of its line.
pub open spec fn prefix_text(default: bool) -> Seq<char> {
    if default {
        "Default network"@
    } else {
        "Network"@
    }
}

/// A network by its kind, its name as it is quoted, and its address.
pub open spec fn titled(default: bool, quoted_name: Seq<char>, network: Network) -> Seq<char> {
    prefix_text(default) + " "@ + quoted_name + " ("@ + network.shown_url@ + ")"@
}

/// A network by its kind, its name in quotes, and its address.
pub open spec fn network_title(default: bool, name: Seq<char>, network: Network) -> Seq<char> {
    titled(default, text::quoted_text(name), network)
}

/// What is said of a network that was reached.
pub open spec fn reached_lines(
    default: bool,
    name: Seq<char>,
    network: Network,
    info: VersionInfo,
) -> Seq<(Mark, Seq<char>)> {
    print::line(Mark::Globe, network_title(default, name, network)) + print::line(
        Mark::Blank,
        "protocol "@ + text::decimal(info.protocol_version as nat),
    ) + print::line(Mark::Blank, "rpc "@ + info.version@)
}

/// What is said of a network, from the reply of its RPC server.
pub open spec fn network_lines(
    default: bool,
    name: Seq<char>,
    network: Network,
    reply: Result<VersionInfo, Error>,
) -> Seq<(Mark, Seq<char>)> {
    match reply {
        Ok(info) => reached_lines(default, name, network, info),
        Err(_) => print::line(
            Mark::Warn,
            network_title(default, name, network) + " is unreachable"@,
        ),
    }
}

/// A network by its kind, its name as it is quoted, and its address.
pub fn title(default: bool, quoted_name: &str, network: &Network) -> (r: String)
    ensures
        r@ == titled(default, quoted_name@, *network),
{
    let prefix = if default {
        "Default network"
    } else {
        "Network"
    };
    prefix.to_owned().concat(" ").concat(quoted_name).concat(" (").concat(
        network.shown_url.as_str(),
    ).concat(")")
}

/// Writes what a network's RPC server said of itself. An error is handed on, and
/// nothing is written.
pub fn print_network(
    default: bool,
    print: &mut Print,
    name: &str,
    network: &Network,
    version_info: Result<VersionInfo, Error>,
) -> (r: Result<(), Error>)
    ensures
        match version_info {
            Ok(info) => r is Ok && final(print)@ == old(print)@ + reached_lines(
                default,
                name@,
                *network,
                info,
            ),
            Err(e) => r == Err::<(), Error>(e) && final(print)@ == old(print)@,
        },
{
    match version_info {
        Ok(info) => {
            print.globeln(title(default, quoted(name).as_str(), network));
            print.blankln(
                "protocol ".to_owned().concat(number(info.protocol_version as u64).as_str()),
            );
            print.blankln("rpc ".to_owned().concat(info.version.as_str()));
            assert(print@ =~= old(print)@ + reached_lines(default, name@, *network, info));
            Ok(())
        },
        Err(e) => Err(e),
    }
}

/// Writes whether a network could be reached. One that could not is a warning and
/// nothing more.
pub fn report_network(
    default: bool,
    print: &mut Print,
    name: &str,
    network: &Network,
    reply: Result<VersionInfo, Error>,
)
    ensures
        final(print)@ == old(print)@ + network_lines(default, name@, *network, reply),
{
    if print_network(default, print, name, network, reply).is_err() {
        print.warnln(title(default, quoted(name).as_str(), network).concat(" is unreachable"));
    }
}

/// The first of the default networks that is to be inspected, and those behind it.
/// Mainnet is passed over, for it has no default RPC server.
pub open spec fn next_default(defaults: Seq<(String, Network)>) -> (
    Option<(String, Network)>,
    Seq<(String, Network)>,
)
    decreases defaults.len(),
{
    if defaults.len() == 0 {
        (None, defaults)
    } else if defaults[0].0@ == "mainnet"@ {
        next_default(defaults.drop_first())
    } else {
        (Some(defaults[0]), defaults.drop_first())
    }
}

/// Takes the first default network that is to be inspected off the list.
pub fn take_default(defaults: Vec<(String, Network)>) -> (r: (
    Option<(String, Network)>,
    Vec<(String, Network)>,
))
    ensures
        (r.0, r.1@) == next_default(defaults@),
{
    let mut rest = defaults;
    while rest.len() > 0
        invariant
            next_default(rest@) == next_default(defaults@),
        decreases rest@.len(),
    {
        let ghost before = rest@;
        let first = rest.remove(0);
        assert(rest@ =~= before.drop_first());
        assert(first == before[0]);
        if !same_text(first.0.as_str(), "mainnet") {
            return (Some(first), rest);
        }
    }
    (None, rest)
}

// ---------------------------------------------------------------------------
// Going through the networks
// ---------------------------------------------------------------------------

/// How far the inspection of the networks has come. The default ones come first,
/// the saved ones after them.
#[derive(Debug)]
pub enum NetworkStage {
    /// The RPC server of this default network is to be asked.
    Default {
        name: String,
        network: Network,
        defaults: Vec<(String, Network)>,
        saved: Vec<String>,
    },
    /// The saved network of this name is to be read.
    Read { name: String, saved: Vec<String> },
    /// The RPC server of this saved network is to be asked.
    Saved { name: String, network: Network, saved: Vec<String> },
    /// Every network was inspected.
    Done,
}

/// [`NetworkStage`] with what is left to inspect as sequences.
pub enum NetworkStageView {
    Default {
        name: String,
        network: Network,
        defaults: Seq<(String, Network)>,
        saved: Seq<String>,
    },
    Read { name: String, saved: Seq<String> },
    Saved { name: String, network: Network, saved: Seq<String> },
    Done,
}

impl View for NetworkStage {
    type V = NetworkStageView;

    open spec fn view(&self) -> NetworkStageView {
        match *self {
            NetworkStage::Default {
                name,
                network,
                defaults,
                saved,
            } => NetworkStageView::Default { name, network, defaults: defaults@, saved: saved@ },
            NetworkStage::Read { name, saved } => NetworkStageView::Read { name, saved: saved@ },
            NetworkStage::Saved { name, network, saved } => NetworkStageView::Saved {
                name,
                network,
                saved: saved@,
            },
            NetworkStage::Done => NetworkStageView::Done,
        }
    }
}

/// What was asked for while the networks were inspected.
#[derive(Debug)]
pub enum NetworkAnswer {
    /// The reply of an RPC server.
    Reply(Result<VersionInfo, Error>),
    /// A saved network, where it could be read.
    Read(Option<Network>),
}

/// Where the inspection goes on with the saved networks.
pub open spec fn from_saved(saved: Seq<String>) -> NetworkStageView {
    if saved.len() == 0 {
        NetworkStageView::Done
    } else {
        NetworkStageView::Read { name: saved[0], saved: saved.drop_first() }
    }
}

/// Where the inspection goes on with the default networks.
pub open spec fn from_defaults(
    defaults: Seq<(String, Network)>,
    saved: Seq<String>,
) -> NetworkStageView {
    match next_default(defaults) {
        (Some((name, network)), rest) => NetworkStageView::Default {
            name,
            network,
            defaults: rest,
            saved,
        },
        (None, _) => from_saved(saved),
    }
}

/// Where the inspection goes on after an answer. An answer to another question
/// than the one that was asked changes nothing.
pub open spec fn next_network(stage: NetworkStageView, answer: NetworkAnswer) -> NetworkStageView {
    match (stage, answer) {
        (
            NetworkStageView::Default { defaults, saved, .. },
            NetworkAnswer::Reply(_),
        ) => from_defaults(defaults, saved),
        (NetworkStageView::Read { name, saved }, NetworkAnswer::Read(read)) => match read {
            Some(network) => NetworkStageView::Saved { name, network, saved },
            None => from_saved(saved),
        },
        (NetworkStageView::Saved { saved, .. }, NetworkAnswer::Reply(_)) => from_saved(saved),
        _ => stage,
    }
}

/// What is said upon an answer.
pub open spec fn said_of_network(
    stage: NetworkStageView,
    answer: NetworkAnswer,
) -> Seq<(Mark, Seq<char>)> {
    match (stage, answer) {
        (
            NetworkStageView::Default { name, network, .. },
            NetworkAnswer::Reply(reply),
        ) => network_lines(true, name@, network, reply),
        (
            NetworkStageView::Saved { name, network, .. },
            NetworkAnswer::Reply(reply),
        ) => network_lines(false, name@, network, reply),
        _ => Seq::empty(),
    }
}

fn start_saved(saved: Vec<String>) -> (r: NetworkStage)
    ensures
        r@ == from_saved(saved@),
{
    let mut rest = saved;
    if rest.len() == 0 {
        NetworkStage::Done
    } else {
        let name = rest.remove(0);
        assert(rest@ =~= saved@.drop_first());
        NetworkStage::Read { name, saved: rest }
    }
}

/// Starts to inspect the default networks and the saved ones.
pub fn start_networks(defaults: Vec<(String, Network)>, saved: Vec<String>) -> (r: NetworkStage)
    ensures
        r@ == from_defaults(defaults@, saved@),
{
    let (first, rest) = take_default(defaults);
    match first {
        Some((name, network)) => NetworkStage::Default { name, network, defaults: rest, saved },
        None => start_saved(saved),
    }
}

/// Writes what an answer says of the network that it is about, and goes on to the
/// next one. A saved network that cannot be read is passed over.
pub fn inspect_networks(
    print: &mut Print,
    stage: NetworkStage,
    answer: NetworkAnswer,
) -> (r: NetworkStage)
    ensures
        r@ == next_network(stage@, answer),
        final(print)@ == old(print)@ + said_of_network(stage@, answer),
{
    let ghost before = print@;
    let r = match (stage, answer) {
        (
            NetworkStage::Default { name, network, defaults, saved },
            NetworkAnswer::Reply(reply),
        ) => {
            report_network(true, print, name.as_str(), &network, reply);
            start_networks(defaults, saved)
        },
        (NetworkStage::Read { name, saved }, NetworkAnswer::Read(read)) => match read {
            Some(network) => NetworkStage::Saved { name, network, saved },
            None => start_saved(saved),
        },
        (NetworkStage::Saved { name, network, saved }, NetworkAnswer::Reply(reply)) => {
            report_network(false, print, name.as_str(), &network, reply);
            start_saved(saved)
        },
        (stage, _) => stage,
    };
    assert(print@ =~= before + said_of_network(stage@, answer));
    r
}

// ---------------------------------------------------------------------------
// Laws
// ---------------------------------------------------------------------------

/// Where the inspection stands after several answers.
pub open spec fn networks_after(
    stage: NetworkStageView,
    answers: Seq<NetworkAnswer>,
) -> NetworkStageView
    decreases answers.len(),
{
    if answers.len() == 0 {
        stage
    } else {
        networks_after(next_network(stage, answers[0]), answers.drop_first())
    }
}

/// What is said upon several answers.
pub open spec fn said_of_networks(
    stage: NetworkStageView,
    answers: Seq<NetworkAnswer>,
) -> Seq<(Mark, Seq<char>)>
    decreases answers.len(),
{
    if answers.len() == 0 {
        Seq::empty()
    } else {
        said_of_network(stage, answers[0]) + said_of_networks(
            next_network(stage, answers[0]),
            answers.drop_first(),
        )
    }
}

proof fn lemma_networks_split(
    stage: NetworkStageView,
    a: Seq<NetworkAnswer>,
    b: Seq<NetworkAnswer>,
)
    ensures
        networks_after(stage, a + b) == networks_after(networks_after(stage, a), b),
        said_of_networks(stage, a + b) == said_of_networks(stage, a) + said_of_networks(
            networks_after(stage, a),
            b,
        ),
    decreases a.len(),
{
    if a.len() == 0 {
        assert(a + b =~= b);
        assert(said_of_networks(stage, a) + said_of_networks(stage, b) =~= said_of_networks(
            stage,
            b,
        ));
    } else {
        let n = next_network(stage, a[0]);
        lemma_networks_split(n, a.drop_first(), b);
        assert((a + b).drop_first() =~= a.drop_first() + b);
        assert(said_of_networks(stage, a + b) =~= said_of_networks(stage, a) + said_of_networks(
            networks_after(stage, a),
            b,
        ));
    }
}

/// What is said of the default networks, from the reply to each. The reply that
/// stands for mainnet is not looked at.
pub open spec fn default_lines(
    defaults: Seq<(String, Network)>,
    replies: Seq<Result<VersionInfo, Error>>,
) -> Seq<(Mark, Seq<char>)>
    decreases defaults.len(),
{
    if defaults.len() == 0 {
        Seq::empty()
    } else {
        (if defaults[0].0@ == "mainnet"@ {
            Seq::empty()
        } else {
            network_lines(true, defaults[0].0@, defaults[0].1, replies[0])
        }) + default_lines(defaults.drop_first(), replies.drop_first())
    }
}

/// What is said of the saved networks, from what could be read of each and the
/// reply to it. Nothing is said of one that could not be read.
pub open spec fn saved_lines(
    saved: Seq<String>,
    read: Seq<Option<Network>>,
    replies: Seq<Result<VersionInfo, Error>>,
) -> Seq<(Mark, Seq<char>)>
    decreases saved.len(),
{
    if saved.len() == 0 {
        Seq::empty()
    } else {
        (match read[0] {
            Some(network) => network_lines(false, saved[0]@, network, replies[0]),
            None => Seq::empty(),
        }) + saved_lines(saved.drop_first(), read.drop_first(), replies.drop_first())
    }
}

/// The answers about the default networks: one reply for each but mainnet.
pub open spec fn default_answers(
    defaults: Seq<(String, Network)>,
    replies: Seq<Result<VersionInfo, Error>>,
) -> Seq<NetworkAnswer>
    decreases defaults.len(),
{
    if defaults.len() == 0 {
        Seq::empty()
    } else {
        (if defaults[0].0@ == "mainnet"@ {
            Seq::empty()
        } else {
            seq![NetworkAnswer::Reply(replies[0])]
        }) + default_answers(defaults.drop_first(), replies.drop_first())
    }
}

/// The answers about the saved networks: what could be read of each, and a reply
/// for each that could be read.
pub open spec fn saved_answers(
    saved: Seq<String>,
    read: Seq<Option<Network>>,
    replies: Seq<Result<VersionInfo, Error>>,
) -> Seq<NetworkAnswer>
    decreases saved.len(),
{
    if saved.len() == 0 {
        Seq::empty()
    } else {
        (match read[0] {
            Some(network) => seq![
                NetworkAnswer::Read(Some(network)),
                NetworkAnswer::Reply(replies[0]),
            ],
            None => seq![NetworkAnswer::Read(None)],
        }) + saved_answers(saved.drop_first(), read.drop_first(), replies.drop_first())
    }
}

proof fn lemma_defaults(
    defaults: Seq<(String, Network)>,
    saved: Seq<String>,
    replies: Seq<Result<VersionInfo, Error>>,
)
    requires
        replies.len() == defaults.len(),
    ensures
        networks_after(from_defaults(defaults, saved), default_answers(defaults, replies))
            == from_saved(saved),
        said_of_networks(from_defaults(defaults, saved), default_answers(defaults, replies))
            == default_lines(defaults, replies),
    decreases defaults.len(),
{
    let stage = from_defaults(defaults, saved);
    let answers = default_answers(defaults, replies);
    let lines = default_lines(defaults, replies);
    if defaults.len() > 0 {
        let (rest, more) = (defaults.drop_first(), replies.drop_first());
        lemma_defaults(rest, saved, more);
        let rest_answers = default_answers(rest, more);
        if defaults[0].0@ == "mainnet"@ {
            assert(answers =~= rest_answers);
            assert(lines =~= default_lines(rest, more));
        } else {
            assert(answers.drop_first() =~= rest_answers);
            assert(answers[0] == NetworkAnswer::Reply(replies[0]));
            assert(next_network(stage, answers[0]) == from_defaults(rest, saved));
        }
    }
}

proof fn lemma_saved(
    saved: Seq<String>,
    read: Seq<Option<Network>>,
    replies: Seq<Result<VersionInfo, Error>>,
)
    requires
        read.len() == saved.len(),
        replies.len() == saved.len(),
    ensures
        networks_after(from_saved(saved), saved_answers(saved, read, replies))
            == NetworkStageView::Done,
        said_of_networks(from_saved(saved), saved_answers(saved, read, replies)) == saved_lines(
            saved,
            read,
            replies,
        ),
    decreases saved.len(),
{
    if saved.len() > 0 {
        let stage = from_saved(saved);
        let answers = saved_answers(saved, read, replies);
        let (rest, rest_read, rest_replies) = (
            saved.drop_first(),
            read.drop_first(),
            replies.drop_first(),
        );
        lemma_saved(rest, rest_read, rest_replies);
        let rest_answers = saved_answers(rest, rest_read, rest_replies);
        match read[0] {
            None => {
                assert(answers.drop_first() =~= rest_answers);
                assert(next_network(stage, answers[0]) == from_saved(rest));
                assert(said_of_networks(stage, answers) =~= saved_lines(saved, read, replies));
            },
            Some(network) => {
                let second = next_network(stage, answers[0]);
                assert(second == NetworkStageView::Saved { name: saved[0], network, saved: rest });
                let after_first = answers.drop_first();
                assert(after_first[0] == NetworkAnswer::Reply(replies[0]));
                assert(after_first.drop_first() =~= rest_answers);
                assert(next_network(second, after_first[0]) == from_saved(rest));
                assert(networks_after(second, after_first) == networks_after(
                    from_saved(rest),
                    rest_answers,
                ));
                assert(said_of_networks(second, after_first) == said_of_network(
                    second,
                    after_first[0],
                ) + said_of_networks(from_saved(rest), rest_answers));
                assert(said_of_networks(stage, answers) =~= saved_lines(saved, read, replies));
            },
        }
    }
}

/// Once every question about the networks was answered, each default network but
/// mainnet and each saved network that could be read was reported once, in order,
/// as reached or as unreachable. Mainnet is never asked, and no reply ends the
/// inspection early.
pub proof fn law_every_network_is_reported(
    defaults: Seq<(String, Network)>,
    default_replies: Seq<Result<VersionInfo, Error>>,
    saved: Seq<String>,
    read: Seq<Option<Network>>,
    saved_replies: Seq<Result<VersionInfo, Error>>,
)
    requires
        default_replies.len() == defaults.len(),
        read.len() == saved.len(),
        saved_replies.len() == saved.len(),
    ensures
        ({
            let start = from_defaults(defaults, saved);
            let answers = default_answers(defaults, default_replies) + saved_answers(
                saved,
                read,
                saved_replies,
            );
            &&& networks_after(start, answers) == NetworkStageView::Done
            &&& said_of_networks(start, answers) == default_lines(defaults, default_replies)
                + saved_lines(saved, read, saved_replies)
        }),
{
    lemma_networks_split(
        from_defaults(defaults, saved),
        default_answers(defaults, default_replies),
        saved_answers(saved, read, saved_replies),
    );
    lemma_defaults(defaults, saved, default_replies);
    lemma_saved(saved, read, saved_replies);
}

/// A default network that is about to be asked is never mainnet.
pub proof fn law_mainnet_is_never_asked(defaults: Seq<(String, Network)>, saved: Seq<String>)
    ensures
        from_defaults(defaults, saved) matches NetworkStageView::Default { name, .. } ==> name@
            != "mainnet"@,
    decreases defaults.len(),
{
    if defaults.len() > 0 {
        law_mainnet_is_never_asked(defaults.drop_first(), saved);
    }
}

/// A network that replied is shown with its own name and address, and beneath it with
/// what the reply says; one that did not is one warning with its name and address. Which
/// error it was does not matter.
pub proof fn law_a_network_is_shown_by_its_own_reply(
    default: bool,
    name: Seq<char>,
    network: Network,
    info: VersionInfo,
    e: Error,
)
    ensures
        ({
            let title = (if default {
                "Default network "@
            } else {
                "Network "@
            }) + text::quoted_text(name) + " ("@ + network.shown_url@ + ")"@;
            &&& network_lines(default, name, network, Ok(info)) == seq![
                (Mark::Globe, title),
                (Mark::Blank, "protocol "@ + text::decimal(info.protocol_version as nat)),
                (Mark::Blank, "rpc "@ + info.version@),
            ]
            &&& network_lines(default, name, network, Err(e)) == seq![
                (Mark::Warn, title + " is unreachable"@),
            ]
        }),
{
    reveal_strlit("Default network");
    reveal_strlit("Default network ");
    reveal_strlit("Network");
    reveal_strlit("Network ");
    reveal_strlit(" ");
    assert("Default network"@ + " "@ =~= "Default network "@);
    assert("Network"@ + " "@ =~= "Network "@);
}

/// The inspection starts with the first default network that is not mainnet, and with
/// the saved networks where there is none. No other network is passed over, and what is
/// left to inspect is what stands behind it.
pub proof fn law_the_inspection_starts_at_the_first_but_mainnet(
    mainnets: Seq<(String, Network)>,
    first: (String, Network),
    rest: Seq<(String, Network)>,
    saved: Seq<String>,
)
    requires
        forall|i: int| 0 <= i < mainnets.len() ==> (#[trigger] mainnets[i]).0@ == "mainnet"@,
        first.0@ != "mainnet"@,
    ensures
        from_defaults(mainnets + seq![first] + rest, saved) == (NetworkStageView::Default {
            name: first.0,
            network: first.1,
            defaults: rest,
            saved,
        }),
        saved.len() > 0 ==> from_defaults(mainnets, saved) == (NetworkStageView::Read {
            name: saved[0],
            saved: saved.drop_first(),
        }),
        saved.len() == 0 ==> from_defaults(mainnets, saved) is Done,
    decreases mainnets.len(),
{
    let all = mainnets + seq![first] + rest;
    if mainnets.len() > 0 {
        assert(all[0] == mainnets[0]);
        assert(all.drop_first() =~= mainnets.drop_first() + seq![first] + rest);
        law_the_inspection_starts_at_the_first_but_mainnet(
            mainnets.drop_first(),
            first,
            rest,
            saved,
        );
    } else {
        assert(all[0] == first);
        assert(all.drop_first() =~= rest);
    }
}

/// The networks are inspected in turn: a reply, whatever it is, leads from a default
/// network to the rest of them, and from a saved network to the next saved one; a saved
/// network that was read is asked next, and one that could not be read is passed over.
pub proof fn law_networks_are_inspected_in_turn(
    name: String,
    network: Network,
    defaults: Seq<(String, Network)>,
    saved: Seq<String>,
    reply: Result<VersionInfo, Error>,
)
    ensures
        ({
            let default = NetworkStageView::Default { name, network, defaults, saved };
            let read = NetworkStageView::Read { name, saved };
            let asked = NetworkStageView::Saved { name, network, saved };
            let first_saved = if saved.len() == 0 {
                NetworkStageView::Done
            } else {
                NetworkStageView::Read { name: saved[0], saved: saved.drop_first() }
            };
            let replied = NetworkAnswer::Reply(reply);
            &&& next_network(default, replied) == from_defaults(defaults, saved)
            &&& said_of_network(default, replied) == network_lines(true, name@, network, reply)
            &&& next_network(read, NetworkAnswer::Read(Some(network))) == asked
            &&& next_network(read, NetworkAnswer::Read(None)) == first_saved
            &&& said_of_network(read, NetworkAnswer::Read(Some(network))).len() == 0
            &&& said_of_network(read, NetworkAnswer::Read(None)).len() == 0
            &&& next_network(asked, replied) == first_saved
            &&& said_of_network(asked, replied) == network_lines(false, name@, network, reply)
        }),
{
}

/// What is said of two lists of default networks, one behind the other, is what is said
/// of the one and then of the other. Of one network alone it is what its own reply
/// says, and nothing exactly where it is mainnet.
pub proof fn law_default_networks_add_up(
    a: Seq<(String, Network)>,
    a_replies: Seq<Result<VersionInfo, Error>>,
    b: Seq<(String, Network)>,
    b_replies: Seq<Result<VersionInfo, Error>>,
    one: (String, Network),
    reply: Result<VersionInfo, Error>,
)
    requires
        a_replies.len() == a.len(),
        b_replies.len() == b.len(),
    ensures
        default_lines(a + b, a_replies + b_replies) == default_lines(a, a_replies) + default_lines(
            b,
            b_replies,
        ),
        default_lines(seq![one], seq![reply]) == (if one.0@ == "mainnet"@ {
            Seq::empty()
        } else {
            network_lines(true, one.0@, one.1, reply)
        }),
    decreases a.len(),
{
    let none = seq![one].drop_first();
    assert(default_lines(none, seq![reply].drop_first()).len() == 0);
    assert(default_lines(seq![one], seq![reply]) =~= (if one.0@ == "mainnet"@ {
        Seq::empty()
    } else {
        network_lines(true, one.0@, one.1, reply)
    }));
    if a.len() == 0 {
        assert(a + b =~= b);
        assert(a_replies + b_replies =~= b_replies);
        assert(default_lines(a, a_replies) + default_lines(b, b_replies) =~= default_lines(
            b,
            b_replies,
        ));
    } else {
        assert((a + b).drop_first() =~= a.drop_first() + b);
        assert((a_replies + b_replies).drop_first() =~= a_replies.drop_first() + b_replies);
        law_default_networks_add_up(
            a.drop_first(),
            a_replies.drop_first(),
            b,
            b_replies,
            one,
            reply,
        );
        assert(default_lines(a + b, a_replies + b_replies) =~= default_lines(a, a_replies)
            + default_lines(b, b_replies));
    }
}

/// What is said of two lists of saved networks, one behind the other, is what is said
/// of the one and then of the other. Of one network alone it is what its own reply
/// says, and nothing exactly where it could not be read.
pub proof fn law_saved_networks_add_up(
    a: Seq<String>,
    a_read: Seq<Option<Network>>,
    a_replies: Seq<Result<VersionInfo, Error>>,
    b: Seq<String>,
    b_read: Seq<Option<Network>>,
    b_replies: Seq<Result<VersionInfo, Error>>,
    one: String,
    network: Network,
    reply: Result<VersionInfo, Error>,
)
    requires
        a_read.len() == a.len(),
        a_replies.len() == a.len(),
        b_read.len() == b.len(),
        b_replies.len() == b.len(),
    ensures
        saved_lines(a + b, a_read + b_read, a_replies + b_replies) == saved_lines(
            a,
            a_read,
            a_replies,
        ) + saved_lines(b, b_read, b_replies),
        saved_lines(seq![one], seq![Some(network)], seq![reply]) == network_lines(
            false,
            one@,
            network,
            reply,
        ),
        saved_lines(seq![one], seq![None], seq![reply]).len() == 0,
    decreases a.len(),
{
    let none = seq![one].drop_first();
    let no_reply = seq![reply].drop_first();
    assert(saved_lines(none, seq![Some(network)].drop_first(), no_reply).len() == 0);
    assert(saved_lines(none, seq![None::<Network>].drop_first(), no_reply).len() == 0);
    assert(saved_lines(seq![one], seq![Some(network)], seq![reply]) =~= network_lines(
        false,
        one@,
        network,
        reply,
    ));
    if a.len() == 0 {
        assert(a + b =~= b);
        assert(a_read + b_read =~= b_read);
        assert(a_replies + b_replies =~= b_replies);
        assert(saved_lines(a, a_read, a_replies) + saved_lines(b, b_read, b_replies)
            =~= saved_lines(b, b_read, b_replies));
    } else {
        assert((a + b).drop_first() =~= a.drop_first() + b);
        assert((a_read + b_read).drop_first() =~= a_read.drop_first() + b_read);
        assert((a_replies + b_replies).drop_first() =~= a_replies.drop_first() + b_replies);
        law_saved_networks_add_up(
            a.drop_first(),
            a_read.drop_first(),
            a_replies.drop_first(),
            b,
            b_read,
            b_replies,
            one,
            network,
            reply,
        );
        assert(saved_lines(a + b, a_read + b_read, a_replies + b_replies) =~= saved_lines(
            a,
            a_read,
            a_replies,
        ) + saved_lines(b, b_read, b_replies));
    }
}

} // verus!
