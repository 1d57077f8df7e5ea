//! What goes to the optional telemetry sink: how the sink is set up, and the
//! topic and message of a line of managed app output.
use vstd::prelude::*;

verus! {

/// Topic of Rally's own lifecycle events.
pub const LIFECYCLE_TOPIC: &'static str = "rally:lifecycle";

/// The topic a line of app output goes to, by the stream it came from.
pub open spec fn topic_for(stream: Seq<char>) -> Seq<char> {
    if stream == "stdout"@ {
        "rally:stdout"@
    } else if stream == "stderr"@ {
        "rally:stderr"@
    } else {
        "rally:output"@
    }
}

/// The topic a line of app output goes to: `rally:stdout`, `rally:stderr`,
/// or `rally:output` for any other stream.
pub fn output_topic(stream: &str) -> (t: &'static str)
    ensures
        t@ == topic_for(stream@),
{
    if crate::text::str_eq(stream, "stdout") {
        "rally:stdout"
    } else if crate::text::str_eq(stream, "stderr") {
        "rally:stderr"
    } else {
        "rally:output"
    }
}

/// The message of a line of app output: `app=NAME LINE`.
pub open spec fn output_message_of(app_name: Seq<char>, line: Seq<char>) -> Seq<char> {
    "app="@ + app_name + " "@ + line
}

/// The topic and message a line of output of the app `app_name` is sent with.
pub fn process_output_event(app_name: &str, stream: &str, line: &str) -> (r: (&'static str, String))
    ensures
        r.0@ == topic_for(stream@),
        r.1@ == output_message_of(app_name@, line@),
{
    let mut m = String::from_str("app=");
    m.append(app_name);
    m.append(" ");
    m.append(line);
    (output_topic(stream), m)
}

/// How the HTTP sink and its logger are set up.
#[derive(Debug)]
pub struct SinkSettings {
    /// Where events are posted.
    pub url: String,
    pub user_agent: String,
    /// Which topics are sent.
    pub filter: String,
    /// The source's application name.
    pub app: String,
    /// The source's runtime.
    pub runtime: String,
    /// The source's instance: the host name, when known.
    pub instance: Option<String>,
}

/// The sink set-up for the sink URL `url` on the host `hostname`: none
/// without a URL; else NDJSON events of the topics `rally*`, sent as
/// `rally/0.1.0` from the application `rally` in `rust` on that host.
pub fn sink_settings(url: Option<String>, hostname: Option<String>) -> (r: Option<SinkSettings>)
    ensures
        url is None ==> r is None,
        url matches Some(u) ==> r matches Some(s) && {
            &&& s.url@ == u@
            &&& s.user_agent@ == "rally/0.1.0"@
            &&& s.filter@ == "rally*"@
            &&& s.app@ == "rally"@
            &&& s.runtime@ == "rust"@
            &&& crate::config::opt_view(s.instance) == crate::config::opt_view(hostname)
        },
{
    match url {
        None => None,
        Some(u) => Some(SinkSettings {
            url: u,
            user_agent: String::from_str("rally/0.1.0"),
            filter: String::from_str("rally*"),
            app: String::from_str("rally"),
            runtime: String::from_str("rust"),
            instance: hostname,
        }),
    }
}

} // verus!
