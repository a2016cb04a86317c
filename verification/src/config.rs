//! The configuration of the local server and what follows from it: whether a
//! model is configured, when a running server has to be replaced, and the
//! command line that the server is started with.

use crate::text::{
    blank, decimal, decimal_text, is_blank, join_from, joined, occurrences, push_text,
    shows_something, split_words, texts, truth, truth_text, words,
};
use vstd::prelude::*;

verus! {

pub const PROVIDER_ID: &'static str = "sdcpp";

pub const PROVIDER_LABEL: &'static str = "Stable Diffusion (Local)";

/// The port that the server listens on where none is configured.
pub const DEFAULT_PORT: u16 = 17861;

/// The minutes that an idle server is kept where none are configured.
pub const DEFAULT_KEEP_ALIVE_MINUTES: u32 = 10;

/// How the local server is to be run.
#[derive(Debug, Clone, PartialEq)]
pub struct SdcppConfig {
    pub backend: String,
    pub port: Option<u16>,
    pub full_model_path: Option<String>,
    pub diffusion_model_path: Option<String>,
    pub vae_path: Option<String>,
    pub llm_path: Option<String>,
    pub clip_l_path: Option<String>,
    pub clip_g_path: Option<String>,
    pub t5xxl_path: Option<String>,
    pub offload_to_cpu: bool,
    pub flash_attention: bool,
    pub keep_alive_minutes: Option<u32>,
    pub extra_args: Option<String>,
}

/// The text, or the empty one where there is none.
pub open spec fn text_or_empty(text: Option<String>) -> Seq<char> {
    match text {
        Some(text) => text@,
        None => Seq::empty(),
    }
}

/// There is a text, and it is more than white space.
pub open spec fn is_given(text: Option<String>) -> bool {
    text is Some && !is_blank(text->0@)
}

/// The texts that a configuration is told by.
pub open spec fn fingerprint_parts(config: SdcppConfig) -> Seq<Seq<char>> {
    seq![
        text_or_empty(config.full_model_path),
        text_or_empty(config.diffusion_model_path),
        text_or_empty(config.vae_path),
        text_or_empty(config.llm_path),
        text_or_empty(config.clip_l_path),
        text_or_empty(config.clip_g_path),
        text_or_empty(config.t5xxl_path),
        truth(config.offload_to_cpu),
        truth(config.flash_attention),
        text_or_empty(config.extra_args),
    ]
}

/// The text that tells whether two configurations start the same server.
pub open spec fn fingerprint(config: SdcppConfig) -> Seq<char> {
    joined(fingerprint_parts(config), "|"@)
}

/// `flag` and the path for it, where a path is given.
pub open spec fn path_args(flag: Seq<char>, path: Option<String>) -> Seq<Seq<char>> {
    if is_given(path) {
        seq![flag, path->0@]
    } else {
        Seq::empty()
    }
}

/// `flag`, where it is on.
pub open spec fn switch_args(flag: Seq<char>, on: bool) -> Seq<Seq<char>> {
    if on {
        seq![flag]
    } else {
        Seq::empty()
    }
}

/// The model to load: the full one where it is given, else the diffusion model.
pub open spec fn model_args(config: SdcppConfig) -> Seq<Seq<char>> {
    if is_given(config.full_model_path) {
        path_args("--model"@, config.full_model_path)
    } else {
        path_args("--diffusion-model"@, config.diffusion_model_path)
    }
}

/// The command line that the server is started with.
pub open spec fn server_args(config: SdcppConfig, port: u16) -> Seq<Seq<char>> {
    model_args(config) + path_args("--vae"@, config.vae_path) + path_args(
        "--llm"@,
        config.llm_path,
    ) + path_args("--clip_l"@, config.clip_l_path) + path_args("--clip_g"@, config.clip_g_path)
        + path_args("--t5xxl"@, config.t5xxl_path) + switch_args(
        "--offload-to-cpu"@,
        config.offload_to_cpu,
    ) + switch_args("--diffusion-fa"@, config.flash_attention) + seq![
        "--listen-ip"@,
        "127.0.0.1"@,
        "--listen-port"@,
        decimal(port as nat),
    ] + words(text_or_empty(config.extra_args))
}

impl SdcppConfig {
    /// A model is configured: a full one or a diffusion model.
    pub open spec fn names_model(&self) -> bool {
        is_given(self.full_model_path) || is_given(self.diffusion_model_path)
    }

    /// The port that the server is to listen on.
    pub open spec fn chosen_port(&self) -> u16 {
        match self.port {
            Some(port) => port,
            None => DEFAULT_PORT,
        }
    }

    /// Nothing is configured but `backend`.
    pub open spec fn is_bare(&self) -> bool {
        &&& self.port is None
        &&& self.full_model_path is None
        &&& self.diffusion_model_path is None
        &&& self.vae_path is None
        &&& self.llm_path is None
        &&& self.clip_l_path is None
        &&& self.clip_g_path is None
        &&& self.t5xxl_path is None
        &&& !self.offload_to_cpu
        &&& !self.flash_attention
        &&& self.keep_alive_minutes is None
        &&& self.extra_args is None
    }

    /// Whether a model is configured.
    pub fn has_model(&self) -> (yes: bool)
        ensures
            yes == self.names_model(),
    {
        given(&self.full_model_path) || given(&self.diffusion_model_path)
    }

    /// The port that the server is to listen on.
    pub fn server_port(&self) -> (port: u16)
        ensures
            port == self.chosen_port(),
    {
        match self.port {
            Some(port) => port,
            None => DEFAULT_PORT,
        }
    }
}

impl Default for SdcppConfig {
    fn default() -> (config: Self)
        ensures
            config.backend@ == Seq::<char>::empty(),
            config.is_bare(),
    {
        SdcppConfig {
            backend: String::new(),
            port: None,
            full_model_path: None,
            diffusion_model_path: None,
            vae_path: None,
            llm_path: None,
            clip_l_path: None,
            clip_g_path: None,
            t5xxl_path: None,
            offload_to_cpu: false,
            flash_attention: false,
            keep_alive_minutes: None,
            extra_args: None,
        }
    }
}

/// Whether there is a text that is more than white space.
fn given(text: &Option<String>) -> (yes: bool)
    ensures
        yes == is_given(*text),
{
    match text {
        Some(text) => !blank(text.as_str()),
        None => false,
    }
}

/// The configuration in force: the stored one, the failure to read it, or, where
/// nothing is stored yet, the bare one with an automatic backend.
pub fn read_config(stored: Option<Result<SdcppConfig, String>>) -> (config: Result<
    SdcppConfig,
    String,
>)
    ensures
        stored is Some ==> config == stored->0,
        stored is None ==> config is Ok && config->Ok_0.backend@ == "auto"@
            && config->Ok_0.is_bare(),
{
    match stored {
        Some(stored) => stored,
        None => {
            let mut config = SdcppConfig::default();
            config.backend = "auto".to_string();
            Ok(config)
        },
    }
}

/// Adds the text, or the empty one, to `parts`.
fn push_or_empty(parts: &mut Vec<String>, text: &Option<String>)
    ensures
        texts(final(parts)@) == texts(old(parts)@).push(text_or_empty(*text)),
{
    match text {
        Some(text) => push_text(parts, text.as_str()),
        None => {
            proof {
                reveal_strlit("");
                assert(""@ =~= Seq::<char>::empty());
            }
            push_text(parts, "")
        },
    }
}

/// The text that tells whether two configurations start the same server.
pub fn config_fingerprint(config: &SdcppConfig) -> (print: String)
    ensures
        print@ == fingerprint(*config),
{
    let mut parts: Vec<String> = Vec::new();
    push_or_empty(&mut parts, &config.full_model_path);
    push_or_empty(&mut parts, &config.diffusion_model_path);
    push_or_empty(&mut parts, &config.vae_path);
    push_or_empty(&mut parts, &config.llm_path);
    push_or_empty(&mut parts, &config.clip_l_path);
    push_or_empty(&mut parts, &config.clip_g_path);
    push_or_empty(&mut parts, &config.t5xxl_path);
    push_text(&mut parts, truth_text(config.offload_to_cpu));
    push_text(&mut parts, truth_text(config.flash_attention));
    push_or_empty(&mut parts, &config.extra_args);
    proof {
        assert(texts(parts@) =~= fingerprint_parts(*config));
        assert(texts(parts@).skip(0) =~= texts(parts@));
    }
    join_from(&parts, 0, "|")
}

/// Adds `flag` and the path for it, where a path is given.
fn push_path(args: &mut Vec<String>, flag: &str, path: &Option<String>)
    ensures
        texts(final(args)@) == texts(old(args)@) + path_args(flag@, *path),
{
    if let Some(path) = path {
        if !blank(path.as_str()) {
            push_text(args, flag);
            push_text(args, path.as_str());
        }
    }
    assert(texts(args@) =~= texts(old(args)@) + path_args(flag@, *path));
}

/// Adds `flag`, where it is on.
fn push_switch(args: &mut Vec<String>, flag: &str, on: bool)
    ensures
        texts(final(args)@) == texts(old(args)@) + switch_args(flag@, on),
{
    if on {
        push_text(args, flag);
    }
    assert(texts(args@) =~= texts(old(args)@) + switch_args(flag@, on));
}

/// The command line that the server is started with.
pub fn build_server_args(config: &SdcppConfig, port: u16) -> (args: Vec<String>)
    ensures
        texts(args@) == server_args(*config, port),
{
    let mut args: Vec<String> = Vec::new();
    if given(&config.full_model_path) {
        push_path(&mut args, "--model", &config.full_model_path);
    } else {
        push_path(&mut args, "--diffusion-model", &config.diffusion_model_path);
    }
    assert(texts(args@) =~= model_args(*config));
    push_path(&mut args, "--vae", &config.vae_path);
    push_path(&mut args, "--llm", &config.llm_path);
    push_path(&mut args, "--clip_l", &config.clip_l_path);
    push_path(&mut args, "--clip_g", &config.clip_g_path);
    push_path(&mut args, "--t5xxl", &config.t5xxl_path);
    push_switch(&mut args, "--offload-to-cpu", config.offload_to_cpu);
    push_switch(&mut args, "--diffusion-fa", config.flash_attention);
    let ghost before = texts(args@);
    push_text(&mut args, "--listen-ip");
    push_text(&mut args, "127.0.0.1");
    push_text(&mut args, "--listen-port");
    let port_text = decimal_text(port as u64);
    push_text(&mut args, port_text.as_str());
    let ghost fixed = texts(args@);
    assert(fixed =~= before + seq![
        "--listen-ip"@,
        "127.0.0.1"@,
        "--listen-port"@,
        decimal(port as nat),
    ]);
    if let Some(extra) = &config.extra_args {
        let mut more = split_words(extra.as_str());
        let ghost added = more@;
        args.append(&mut more);
        assert(texts(args@) =~= fixed + texts(added));
    } else {
        assert(words(Seq::empty()) =~= Seq::empty());
        assert(fixed + words(Seq::empty()) =~= fixed);
    }
    args
}

// ----------------------------------------------------------------------------
// Laws
// ----------------------------------------------------------------------------

/// How many bars, the marks that a fingerprint is joined with, each of its parts holds.
pub open spec fn bars(config: SdcppConfig) -> Seq<nat> {
    fingerprint_parts(config).map_values(|part: Seq<char>| occurrences(part, '|'))
}

/// A fingerprint tells its parts: two configurations agree in each of its parts exactly
/// where they have the same fingerprint and as many bars in each part.
pub proof fn fingerprint_tells_its_parts(a: SdcppConfig, b: SdcppConfig)
    ensures
        fingerprint_parts(a) == fingerprint_parts(b) <==> fingerprint(a) == fingerprint(b)
            && bars(a) == bars(b),
{
    reveal_strlit("|");
    assert("|"@ =~= seq!['|']);
    let p = fingerprint_parts(a);
    let q = fingerprint_parts(b);
    if fingerprint(a) == fingerprint(b) && bars(a) == bars(b) {
        assert forall|i: int| 0 <= i < p.len() implies occurrences(#[trigger] p[i], '|')
            == occurrences(q[i], '|') by {
            assert(bars(a)[i] == bars(b)[i]);
        }
        crate::text::lemma_joined_injective(p, q, '|');
    }
}

/// None of the paths of the configuration holds a bar.
pub open spec fn has_bar_free_paths(config: SdcppConfig) -> bool {
    &&& !text_or_empty(config.full_model_path).contains('|')
    &&& !text_or_empty(config.diffusion_model_path).contains('|')
    &&& !text_or_empty(config.vae_path).contains('|')
    &&& !text_or_empty(config.llm_path).contains('|')
    &&& !text_or_empty(config.clip_l_path).contains('|')
    &&& !text_or_empty(config.clip_g_path).contains('|')
    &&& !text_or_empty(config.t5xxl_path).contains('|')
}

/// Where no path holds a bar, the fingerprint alone tells the parts, whatever the further
/// arguments hold.
pub proof fn fingerprint_tells_bar_free_paths(a: SdcppConfig, b: SdcppConfig)
    requires
        has_bar_free_paths(a),
        has_bar_free_paths(b),
    ensures
        fingerprint_parts(a) == fingerprint_parts(b) <==> fingerprint(a) == fingerprint(b),
{
    fingerprint_tells_its_parts(a, b);
    if fingerprint(a) == fingerprint(b) {
        lemma_bars_add_up(a);
        lemma_bars_add_up(b);
        assert(bars(a) =~= bars(b));
    }
}

/// Where no path holds a bar, all bars of a fingerprint are those between its parts and
/// those of the further arguments.
proof fn lemma_bars_add_up(config: SdcppConfig)
    requires
        has_bar_free_paths(config),
    ensures
        forall|i: int| 0 <= i < 9 ==> #[trigger] bars(config)[i] == 0,
        bars(config)[9] + 9 == occurrences(fingerprint(config), '|'),
{
    reveal_strlit("|");
    reveal_strlit("true");
    reveal_strlit("false");
    assert("|"@ =~= seq!['|']);
    assert(!truth(true).contains('|'));
    assert(!truth(false).contains('|'));
    let parts = fingerprint_parts(config);
    assert forall|i: int| 0 <= i < 9 implies #[trigger] bars(config)[i] == 0 && !parts[i].contains(
        '|',
    ) by {
        assert(!parts[i].contains('|'));
        crate::text::lemma_occurs_no_time(parts[i], '|');
    }
    let before = parts.drop_last();
    assert forall|i: int| 0 <= i < before.len() implies !(#[trigger] before[i]).contains('|') by {
        assert(before[i] == parts[i]);
        assert(bars(config)[i] == 0);
    }
    crate::text::lemma_marks_between(before, '|');
    crate::text::lemma_marks_of_last(parts, '|');
}

/// Two configurations have the same fingerprint only where they agree in its parts: no
/// path of either holds a bar, or they have as many bars in each part.
pub open spec fn fingerprint_decides(a: SdcppConfig, b: SdcppConfig) -> bool {
    has_bar_free_paths(a) && has_bar_free_paths(b) || bars(a) == bars(b)
}

/// A server that runs for one configuration can serve another of the same
/// fingerprint: on the same port both are started with the same command line, where
/// the fingerprint decides.
pub proof fn same_fingerprint_same_server(a: SdcppConfig, b: SdcppConfig, port: u16)
    requires
        fingerprint_decides(a, b),
        fingerprint(a) == fingerprint(b),
    ensures
        server_args(a, port) == server_args(b, port),
        a.names_model() == b.names_model(),
{
    if has_bar_free_paths(a) && has_bar_free_paths(b) {
        fingerprint_tells_bar_free_paths(a, b);
    } else {
        fingerprint_tells_its_parts(a, b);
    }
    let p = fingerprint_parts(a);
    let q = fingerprint_parts(b);
    assert(p[0] == q[0] && p[1] == q[1] && p[2] == q[2] && p[3] == q[3] && p[4] == q[4]);
    assert(p[5] == q[5] && p[6] == q[6] && p[7] == q[7] && p[8] == q[8] && p[9] == q[9]);
    assert(a.offload_to_cpu == b.offload_to_cpu && a.flash_attention == b.flash_attention) by {
        reveal_strlit("true");
        reveal_strlit("false");
        assert(truth(true).len() != truth(false).len());
    }
    lemma_same_path_args("--model"@, a.full_model_path, b.full_model_path);
    lemma_same_path_args("--diffusion-model"@, a.diffusion_model_path, b.diffusion_model_path);
    lemma_same_path_args("--vae"@, a.vae_path, b.vae_path);
    lemma_same_path_args("--llm"@, a.llm_path, b.llm_path);
    lemma_same_path_args("--clip_l"@, a.clip_l_path, b.clip_l_path);
    lemma_same_path_args("--clip_g"@, a.clip_g_path, b.clip_g_path);
    lemma_same_path_args("--t5xxl"@, a.t5xxl_path, b.t5xxl_path);
}

/// An absent path counts as the empty one.
proof fn lemma_same_path_args(flag: Seq<char>, a: Option<String>, b: Option<String>)
    requires
        text_or_empty(a) == text_or_empty(b),
    ensures
        is_given(a) == is_given(b),
        path_args(flag, a) == path_args(flag, b),
{
    assert(is_given(a) == !is_blank(text_or_empty(a)));
    assert(is_given(b) == !is_blank(text_or_empty(b)));
}

/// The backend, the port and the time that an idle server is kept are no part of
/// the fingerprint.
pub proof fn fingerprint_ignores_the_rest(
    config: SdcppConfig,
    backend: String,
    port: Option<u16>,
    keep_alive_minutes: Option<u32>,
)
    ensures
        fingerprint(SdcppConfig { backend, port, keep_alive_minutes, ..config }) == fingerprint(
            config,
        ),
{
}

/// The command line starts with the flag and the path of the model exactly where
/// one is configured; where none is, nothing stands in their place.
pub proof fn a_configured_model_is_loaded(config: SdcppConfig, port: u16)
    ensures
        config.names_model() ==> model_args(config).len() == 2,
        !config.names_model() ==> model_args(config).len() == 0,
        model_args(config).is_prefix_of(server_args(config, port)),
{
    assert(model_args(config) =~= server_args(config, port).take(model_args(config).len() as int));
}

/// There is a text, and something in it can be seen.
pub open spec fn is_shown(text: Option<String>) -> bool {
    text is Some && shows_something(text->0@)
}

/// `what` stands somewhere in `args`, and without it `args` is `less`.
pub open spec fn adds(args: Seq<Seq<char>>, less: Seq<Seq<char>>, what: Seq<Seq<char>>) -> bool {
    exists|place: int|
        0 <= place <= less.len() && args == #[trigger] less.take(place) + what + less.skip(place)
}

/// The command line with a path is the one without, with the flag and the path added to
/// it, where something in the path can be seen; else the path makes no difference.
pub open spec fn adds_path(
    args: Seq<Seq<char>>,
    less: Seq<Seq<char>>,
    flag: Seq<char>,
    path: Option<String>,
) -> bool {
    if is_shown(path) {
        adds(args, less, seq![flag, path->0@])
    } else {
        args == less
    }
}

/// The command line with a switch is the one without, with the flag added to it, where
/// the switch is on.
pub open spec fn adds_switch(
    args: Seq<Seq<char>>,
    less: Seq<Seq<char>>,
    flag: Seq<char>,
    on: bool,
) -> bool {
    if on {
        adds(args, less, seq![flag])
    } else {
        args == less
    }
}

proof fn lemma_given_is_shown(text: Option<String>)
    ensures
        is_given(text) == is_shown(text),
{
    if text is Some {
        crate::text::blank_shows_nothing(text->0@);
    }
}

/// The command line from `--t5xxl` on.
spec fn late_args(config: SdcppConfig, port: u16) -> Seq<Seq<char>> {
    path_args("--t5xxl"@, config.t5xxl_path) + (switch_args(
        "--offload-to-cpu"@,
        config.offload_to_cpu,
    ) + (switch_args("--diffusion-fa"@, config.flash_attention) + (seq![
        "--listen-ip"@,
        "127.0.0.1"@,
        "--listen-port"@,
        decimal(port as nat),
    ] + words(text_or_empty(config.extra_args)))))
}

/// The command line from `--vae` on.
spec fn middle_args(config: SdcppConfig, port: u16) -> Seq<Seq<char>> {
    path_args("--vae"@, config.vae_path) + (path_args("--llm"@, config.llm_path) + (path_args(
        "--clip_l"@,
        config.clip_l_path,
    ) + (path_args("--clip_g"@, config.clip_g_path) + late_args(config, port))))
}

proof fn lemma_regroup(a: Seq<Seq<char>>, b: Seq<Seq<char>>, c: Seq<Seq<char>>)
    ensures
        a + b + c == a + (b + c),
{
    assert(a + b + c =~= a + (b + c));
}

proof fn lemma_args_from_the_left(config: SdcppConfig, port: u16)
    ensures
        server_args(config, port) == model_args(config) + middle_args(config, port),
{
    let a = model_args(config);
    let b = path_args("--vae"@, config.vae_path);
    let c = path_args("--llm"@, config.llm_path);
    let d = path_args("--clip_l"@, config.clip_l_path);
    let e = path_args("--clip_g"@, config.clip_g_path);
    let f = path_args("--t5xxl"@, config.t5xxl_path);
    let g = switch_args("--offload-to-cpu"@, config.offload_to_cpu);
    let h = switch_args("--diffusion-fa"@, config.flash_attention);
    let i = seq!["--listen-ip"@, "127.0.0.1"@, "--listen-port"@, decimal(port as nat)];
    let j = words(text_or_empty(config.extra_args));
    lemma_regroup(a + b + c + d + e + f + g + h, i, j);
    lemma_regroup(a + b + c + d + e + f + g, h, i + j);
    lemma_regroup(a + b + c + d + e + f, g, h + (i + j));
    lemma_regroup(a + b + c + d + e, f, g + (h + (i + j)));
    lemma_regroup(a + b + c + d, e, f + (g + (h + (i + j))));
    lemma_regroup(a + b + c, d, e + (f + (g + (h + (i + j)))));
    lemma_regroup(a + b, c, d + (e + (f + (g + (h + (i + j))))));
    lemma_regroup(a, b, c + (d + (e + (f + (g + (h + (i + j)))))));
}

/// What is added to a part of the command line is added to the whole.
proof fn lemma_adds_behind(
    front: Seq<Seq<char>>,
    args: Seq<Seq<char>>,
    less: Seq<Seq<char>>,
    what: Seq<Seq<char>>,
)
    requires
        adds(args, less, what),
    ensures
        adds(front + args, front + less, what),
{
    let place = choose|place: int|
        0 <= place <= less.len() && args == #[trigger] less.take(place) + what + less.skip(place);
    let at = front.len() + place;
    let whole = front + less;
    assert(whole.take(at) =~= front + less.take(place));
    assert(whole.skip(at) =~= less.skip(place));
    assert(front + args =~= whole.take(at) + what + whole.skip(at));
}

proof fn lemma_adds_in_front(what: Seq<Seq<char>>, less: Seq<Seq<char>>)
    ensures
        adds(what + less, less, what),
        what.len() == 0 ==> what + less == less,
{
    assert(less.take(0) + what + less.skip(0) =~= what + less);
    if what.len() == 0 {
        assert(what + less =~= less);
    }
}

proof fn lemma_vae_path_adds(config: SdcppConfig, port: u16)
    ensures
        adds_path(
            server_args(config, port),
            server_args(SdcppConfig { vae_path: None, ..config }, port),
            "--vae"@,
            config.vae_path,
        ),
{
    let less = SdcppConfig { vae_path: None, ..config };
    let b = path_args("--vae"@, config.vae_path);
    let c = path_args("--llm"@, config.llm_path);
    let d = path_args("--clip_l"@, config.clip_l_path);
    let e = path_args("--clip_g"@, config.clip_g_path);
    let f = path_args("--t5xxl"@, config.t5xxl_path);
    let g = switch_args("--offload-to-cpu"@, config.offload_to_cpu);
    let h = switch_args("--diffusion-fa"@, config.flash_attention);
    let end = seq!["--listen-ip"@, "127.0.0.1"@, "--listen-port"@, decimal(port as nat)] + words(
        text_or_empty(config.extra_args),
    );
    lemma_given_is_shown(config.vae_path);
    lemma_args_from_the_left(config, port);
    lemma_args_from_the_left(less, port);
    let rest = c + (d + (e + (f + (g + (h + end)))));
    let none = Seq::<Seq<char>>::empty();
    lemma_adds_in_front(b, rest);
    lemma_adds_in_front(none, rest);
    let with_0 = b + rest;
    let without_0 = rest;
    lemma_adds_behind(model_args(config), with_0, without_0, b);
    assert(middle_args(config, port) == with_0);
    assert(middle_args(less, port) == without_0);
    assert(model_args(less) == model_args(config));
}

proof fn lemma_llm_path_adds(config: SdcppConfig, port: u16)
    ensures
        adds_path(
            server_args(config, port),
            server_args(SdcppConfig { llm_path: None, ..config }, port),
            "--llm"@,
            config.llm_path,
        ),
{
    let less = SdcppConfig { llm_path: None, ..config };
    let b = path_args("--vae"@, config.vae_path);
    let c = path_args("--llm"@, config.llm_path);
    let d = path_args("--clip_l"@, config.clip_l_path);
    let e = path_args("--clip_g"@, config.clip_g_path);
    let f = path_args("--t5xxl"@, config.t5xxl_path);
    let g = switch_args("--offload-to-cpu"@, config.offload_to_cpu);
    let h = switch_args("--diffusion-fa"@, config.flash_attention);
    let end = seq!["--listen-ip"@, "127.0.0.1"@, "--listen-port"@, decimal(port as nat)] + words(
        text_or_empty(config.extra_args),
    );
    lemma_given_is_shown(config.llm_path);
    lemma_args_from_the_left(config, port);
    lemma_args_from_the_left(less, port);
    let rest = d + (e + (f + (g + (h + end))));
    let none = Seq::<Seq<char>>::empty();
    lemma_adds_in_front(c, rest);
    lemma_adds_in_front(none, rest);
    let with_0 = c + rest;
    let without_0 = rest;
    lemma_adds_behind(b, with_0, without_0, c);
    let with_1 = b + with_0;
    let without_1 = b + without_0;
    lemma_adds_behind(model_args(config), with_1, without_1, c);
    assert(middle_args(config, port) == with_1);
    assert(middle_args(less, port) == without_1);
    assert(model_args(less) == model_args(config));
}

proof fn lemma_clip_l_path_adds(config: SdcppConfig, port: u16)
    ensures
        adds_path(
            server_args(config, port),
            server_args(SdcppConfig { clip_l_path: None, ..config }, port),
            "--clip_l"@,
            config.clip_l_path,
        ),
{
    let less = SdcppConfig { clip_l_path: None, ..config };
    let b = path_args("--vae"@, config.vae_path);
    let c = path_args("--llm"@, config.llm_path);
    let d = path_args("--clip_l"@, config.clip_l_path);
    let e = path_args("--clip_g"@, config.clip_g_path);
    let f = path_args("--t5xxl"@, config.t5xxl_path);
    let g = switch_args("--offload-to-cpu"@, config.offload_to_cpu);
    let h = switch_args("--diffusion-fa"@, config.flash_attention);
    let end = seq!["--listen-ip"@, "127.0.0.1"@, "--listen-port"@, decimal(port as nat)] + words(
        text_or_empty(config.extra_args),
    );
    lemma_given_is_shown(config.clip_l_path);
    lemma_args_from_the_left(config, port);
    lemma_args_from_the_left(less, port);
    let rest = e + (f + (g + (h + end)));
    let none = Seq::<Seq<char>>::empty();
    lemma_adds_in_front(d, rest);
    lemma_adds_in_front(none, rest);
    let with_0 = d + rest;
    let without_0 = rest;
    lemma_adds_behind(c, with_0, without_0, d);
    let with_1 = c + with_0;
    let without_1 = c + without_0;
    lemma_adds_behind(b, with_1, without_1, d);
    let with_2 = b + with_1;
    let without_2 = b + without_1;
    lemma_adds_behind(model_args(config), with_2, without_2, d);
    assert(middle_args(config, port) == with_2);
    assert(middle_args(less, port) == without_2);
    assert(model_args(less) == model_args(config));
}

proof fn lemma_clip_g_path_adds(config: SdcppConfig, port: u16)
    ensures
        adds_path(
            server_args(config, port),
            server_args(SdcppConfig { clip_g_path: None, ..config }, port),
            "--clip_g"@,
            config.clip_g_path,
        ),
{
    let less = SdcppConfig { clip_g_path: None, ..config };
    let b = path_args("--vae"@, config.vae_path);
    let c = path_args("--llm"@, config.llm_path);
    let d = path_args("--clip_l"@, config.clip_l_path);
    let e = path_args("--clip_g"@, config.clip_g_path);
    let f = path_args("--t5xxl"@, config.t5xxl_path);
    let g = switch_args("--offload-to-cpu"@, config.offload_to_cpu);
    let h = switch_args("--diffusion-fa"@, config.flash_attention);
    let end = seq!["--listen-ip"@, "127.0.0.1"@, "--listen-port"@, decimal(port as nat)] + words(
        text_or_empty(config.extra_args),
    );
    lemma_given_is_shown(config.clip_g_path);
    lemma_args_from_the_left(config, port);
    lemma_args_from_the_left(less, port);
    let rest = f + (g + (h + end));
    let none = Seq::<Seq<char>>::empty();
    lemma_adds_in_front(e, rest);
    lemma_adds_in_front(none, rest);
    let with_0 = e + rest;
    let without_0 = rest;
    lemma_adds_behind(d, with_0, without_0, e);
    let with_1 = d + with_0;
    let without_1 = d + without_0;
    lemma_adds_behind(c, with_1, without_1, e);
    let with_2 = c + with_1;
    let without_2 = c + without_1;
    lemma_adds_behind(b, with_2, without_2, e);
    let with_3 = b + with_2;
    let without_3 = b + without_2;
    lemma_adds_behind(model_args(config), with_3, without_3, e);
    assert(middle_args(config, port) == with_3);
    assert(middle_args(less, port) == without_3);
    assert(model_args(less) == model_args(config));
}

proof fn lemma_t5xxl_path_adds(config: SdcppConfig, port: u16)
    ensures
        adds_path(
            server_args(config, port),
            server_args(SdcppConfig { t5xxl_path: None, ..config }, port),
            "--t5xxl"@,
            config.t5xxl_path,
        ),
{
    let less = SdcppConfig { t5xxl_path: None, ..config };
    let b = path_args("--vae"@, config.vae_path);
    let c = path_args("--llm"@, config.llm_path);
    let d = path_args("--clip_l"@, config.clip_l_path);
    let e = path_args("--clip_g"@, config.clip_g_path);
    let f = path_args("--t5xxl"@, config.t5xxl_path);
    let g = switch_args("--offload-to-cpu"@, config.offload_to_cpu);
    let h = switch_args("--diffusion-fa"@, config.flash_attention);
    let end = seq!["--listen-ip"@, "127.0.0.1"@, "--listen-port"@, decimal(port as nat)] + words(
        text_or_empty(config.extra_args),
    );
    lemma_given_is_shown(config.t5xxl_path);
    lemma_args_from_the_left(config, port);
    lemma_args_from_the_left(less, port);
    let rest = g + (h + end);
    let none = Seq::<Seq<char>>::empty();
    lemma_adds_in_front(f, rest);
    lemma_adds_in_front(none, rest);
    let with_0 = f + rest;
    let without_0 = rest;
    lemma_adds_behind(e, with_0, without_0, f);
    let with_1 = e + with_0;
    let without_1 = e + without_0;
    lemma_adds_behind(d, with_1, without_1, f);
    let with_2 = d + with_1;
    let without_2 = d + without_1;
    lemma_adds_behind(c, with_2, without_2, f);
    let with_3 = c + with_2;
    let without_3 = c + without_2;
    lemma_adds_behind(b, with_3, without_3, f);
    let with_4 = b + with_3;
    let without_4 = b + without_3;
    lemma_adds_behind(model_args(config), with_4, without_4, f);
    assert(middle_args(config, port) == with_4);
    assert(middle_args(less, port) == without_4);
    assert(model_args(less) == model_args(config));
}

proof fn lemma_offload_to_cpu_adds(config: SdcppConfig, port: u16)
    ensures
        adds_switch(
            server_args(config, port),
            server_args(SdcppConfig { offload_to_cpu: false, ..config }, port),
            "--offload-to-cpu"@,
            config.offload_to_cpu,
        ),
{
    let less = SdcppConfig { offload_to_cpu: false, ..config };
    let b = path_args("--vae"@, config.vae_path);
    let c = path_args("--llm"@, config.llm_path);
    let d = path_args("--clip_l"@, config.clip_l_path);
    let e = path_args("--clip_g"@, config.clip_g_path);
    let f = path_args("--t5xxl"@, config.t5xxl_path);
    let g = switch_args("--offload-to-cpu"@, config.offload_to_cpu);
    let h = switch_args("--diffusion-fa"@, config.flash_attention);
    let end = seq!["--listen-ip"@, "127.0.0.1"@, "--listen-port"@, decimal(port as nat)] + words(
        text_or_empty(config.extra_args),
    );
    lemma_args_from_the_left(config, port);
    lemma_args_from_the_left(less, port);
    let rest = h + end;
    let none = Seq::<Seq<char>>::empty();
    lemma_adds_in_front(g, rest);
    lemma_adds_in_front(none, rest);
    let with_0 = g + rest;
    let without_0 = rest;
    lemma_adds_behind(f, with_0, without_0, g);
    let with_1 = f + with_0;
    let without_1 = f + without_0;
    lemma_adds_behind(e, with_1, without_1, g);
    let with_2 = e + with_1;
    let without_2 = e + without_1;
    lemma_adds_behind(d, with_2, without_2, g);
    let with_3 = d + with_2;
    let without_3 = d + without_2;
    lemma_adds_behind(c, with_3, without_3, g);
    let with_4 = c + with_3;
    let without_4 = c + without_3;
    lemma_adds_behind(b, with_4, without_4, g);
    let with_5 = b + with_4;
    let without_5 = b + without_4;
    lemma_adds_behind(model_args(config), with_5, without_5, g);
    assert(middle_args(config, port) == with_5);
    assert(middle_args(less, port) == without_5);
    assert(model_args(less) == model_args(config));
}

proof fn lemma_flash_attention_adds(config: SdcppConfig, port: u16)
    ensures
        adds_switch(
            server_args(config, port),
            server_args(SdcppConfig { flash_attention: false, ..config }, port),
            "--diffusion-fa"@,
            config.flash_attention,
        ),
{
    let less = SdcppConfig { flash_attention: false, ..config };
    let b = path_args("--vae"@, config.vae_path);
    let c = path_args("--llm"@, config.llm_path);
    let d = path_args("--clip_l"@, config.clip_l_path);
    let e = path_args("--clip_g"@, config.clip_g_path);
    let f = path_args("--t5xxl"@, config.t5xxl_path);
    let g = switch_args("--offload-to-cpu"@, config.offload_to_cpu);
    let h = switch_args("--diffusion-fa"@, config.flash_attention);
    let end = seq!["--listen-ip"@, "127.0.0.1"@, "--listen-port"@, decimal(port as nat)] + words(
        text_or_empty(config.extra_args),
    );
    lemma_args_from_the_left(config, port);
    lemma_args_from_the_left(less, port);
    let rest = end;
    let none = Seq::<Seq<char>>::empty();
    lemma_adds_in_front(h, rest);
    lemma_adds_in_front(none, rest);
    let with_0 = h + rest;
    let without_0 = rest;
    lemma_adds_behind(g, with_0, without_0, h);
    let with_1 = g + with_0;
    let without_1 = g + without_0;
    lemma_adds_behind(f, with_1, without_1, h);
    let with_2 = f + with_1;
    let without_2 = f + without_1;
    lemma_adds_behind(e, with_2, without_2, h);
    let with_3 = e + with_2;
    let without_3 = e + without_2;
    lemma_adds_behind(d, with_3, without_3, h);
    let with_4 = d + with_3;
    let without_4 = d + without_3;
    lemma_adds_behind(c, with_4, without_4, h);
    let with_5 = c + with_4;
    let without_5 = c + without_4;
    lemma_adds_behind(b, with_5, without_5, h);
    let with_6 = b + with_5;
    let without_6 = b + without_5;
    lemma_adds_behind(model_args(config), with_6, without_6, h);
    assert(middle_args(config, port) == with_6);
    assert(middle_args(less, port) == without_6);
    assert(model_args(less) == model_args(config));
}

/// Every path that is given reaches the server, and each switch that is on: to give one
/// adds its flag to the command line, a path right behind its flag, and changes nothing
/// else. A path in which nothing can be seen is as good as none.
pub proof fn each_setting_adds_its_flag(config: SdcppConfig, port: u16)
    ensures
        ({
            let args = server_args(config, port);
            &&& adds_path(
                args,
                server_args(SdcppConfig { vae_path: None, ..config }, port),
                "--vae"@,
                config.vae_path,
            )
            &&& adds_path(
                args,
                server_args(SdcppConfig { llm_path: None, ..config }, port),
                "--llm"@,
                config.llm_path,
            )
            &&& adds_path(
                args,
                server_args(SdcppConfig { clip_l_path: None, ..config }, port),
                "--clip_l"@,
                config.clip_l_path,
            )
            &&& adds_path(
                args,
                server_args(SdcppConfig { clip_g_path: None, ..config }, port),
                "--clip_g"@,
                config.clip_g_path,
            )
            &&& adds_path(
                args,
                server_args(SdcppConfig { t5xxl_path: None, ..config }, port),
                "--t5xxl"@,
                config.t5xxl_path,
            )
            &&& adds_switch(
                args,
                server_args(SdcppConfig { offload_to_cpu: false, ..config }, port),
                "--offload-to-cpu"@,
                config.offload_to_cpu,
            )
            &&& adds_switch(
                args,
                server_args(SdcppConfig { flash_attention: false, ..config }, port),
                "--diffusion-fa"@,
                config.flash_attention,
            )
        }),
{
    lemma_vae_path_adds(config, port);
    lemma_llm_path_adds(config, port);
    lemma_clip_l_path_adds(config, port);
    lemma_clip_g_path_adds(config, port);
    lemma_t5xxl_path_adds(config, port);
    lemma_offload_to_cpu_adds(config, port);
    lemma_flash_attention_adds(config, port);
}

/// The model comes first: the full one where something in its path can be seen, whatever
/// the other path is; else the diffusion model; and nothing in its place where neither
/// is given.
pub proof fn the_full_model_comes_first(config: SdcppConfig, port: u16)
    ensures
        ({
            let args = server_args(config, port);
            let less = server_args(
                SdcppConfig { full_model_path: None, diffusion_model_path: None, ..config },
                port,
            );
            &&& is_shown(config.full_model_path) ==> args == seq![
                "--model"@,
                config.full_model_path->0@,
            ] + less
            &&& !is_shown(config.full_model_path) && is_shown(config.diffusion_model_path)
                ==> args == seq!["--diffusion-model"@, config.diffusion_model_path->0@] + less
            &&& !is_shown(config.full_model_path) && !is_shown(config.diffusion_model_path)
                ==> args == less
            &&& config.names_model() == (is_shown(config.full_model_path) || is_shown(
                config.diffusion_model_path,
            ))
        }),
{
    let bare = SdcppConfig { full_model_path: None, diffusion_model_path: None, ..config };
    lemma_given_is_shown(config.full_model_path);
    lemma_given_is_shown(config.diffusion_model_path);
    lemma_args_from_the_left(config, port);
    lemma_args_from_the_left(bare, port);
    assert(middle_args(bare, port) == middle_args(config, port));
    assert(model_args(bare) =~= Seq::empty());
    assert(server_args(bare, port) =~= middle_args(config, port));
}

/// The words of the further arguments come last, and where nothing else is configured
/// the server is told where to listen, and nothing more.
pub proof fn further_arguments_come_last(config: SdcppConfig, port: u16)
    ensures
        config.extra_args is Some ==> server_args(config, port) == server_args(
            SdcppConfig { extra_args: None, ..config },
            port,
        ) + words(config.extra_args->0@),
        config.is_bare() ==> server_args(config, port) == seq![
            "--listen-ip"@,
            "127.0.0.1"@,
            "--listen-port"@,
            decimal(port as nat),
        ],
{
    assert(words(Seq::<char>::empty()) =~= Seq::empty());
    if config.extra_args is Some {
        let less = server_args(SdcppConfig { extra_args: None, ..config }, port);
        assert(server_args(config, port) =~= less + words(config.extra_args->0@));
    }
    if config.is_bare() {
        assert(server_args(config, port) =~= seq![
            "--listen-ip"@,
            "127.0.0.1"@,
            "--listen-port"@,
            decimal(port as nat),
        ]);
    }
}

/// The command line tells the server the port, right behind the flag for it.
pub proof fn lemma_port_is_listened_on(config: SdcppConfig, port: u16)
    ensures
        exists|i: int|
            0 <= i && i + 1 < server_args(config, port).len() && #[trigger] server_args(
                config,
                port,
            )[i] == "--listen-port"@ && server_args(config, port)[i + 1] == decimal(port as nat),
{
    let args = server_args(config, port);
    let i = args.len() - words(text_or_empty(config.extra_args)).len() - 2;
    assert(args[i] == "--listen-port"@);
    assert(args[i + 1] == decimal(port as nat));
}

/// Both or neither can be seen, and where they can be they are the same.
pub open spec fn shows_alike(a: Option<String>, b: Option<String>) -> bool {
    is_shown(a) == is_shown(b) && (is_shown(a) ==> a->0@ == b->0@)
}

/// The flags differ from each other: most of them in their length.
proof fn lemma_flags_differ()
    ensures
        "--model"@.len() == 7 && "--t5xxl"@.len() == 7 && "--model"@ != "--t5xxl"@,
        "--vae"@.len() == 5 && "--llm"@.len() == 5 && "--vae"@ != "--llm"@,
        "--clip_l"@.len() == 8 && "--clip_g"@.len() == 8 && "--clip_l"@ != "--clip_g"@,
        "--diffusion-model"@.len() == 17 && "--offload-to-cpu"@.len() == 16,
        "--diffusion-fa"@.len() == 14 && "--listen-ip"@.len() == 11,
{
    reveal_strlit("--model");
    reveal_strlit("--diffusion-model");
    reveal_strlit("--vae");
    reveal_strlit("--llm");
    reveal_strlit("--clip_l");
    reveal_strlit("--clip_g");
    reveal_strlit("--t5xxl");
    reveal_strlit("--offload-to-cpu");
    reveal_strlit("--diffusion-fa");
    reveal_strlit("--listen-ip");
    assert("--vae"@[2] != "--llm"@[2]);
    assert("--clip_l"@[7] != "--clip_g"@[7]);
    assert("--t5xxl"@[2] != "--model"@[2]);
}

/// What stands at the front can be told from what follows.
proof fn lemma_front_is_told(
    flag: Seq<char>,
    a: Seq<Seq<char>>,
    b: Seq<Seq<char>>,
    r: Seq<Seq<char>>,
    s: Seq<Seq<char>>,
    len: nat,
)
    requires
        a + r == b + s,
        len > 0,
        a.len() == 0 || a.len() == len && a[0] == flag,
        b.len() == 0 || b.len() == len && b[0] == flag,
        r.len() > 0,
        s.len() > 0,
        r[0] != flag,
        s[0] != flag,
    ensures
        a == b,
        r == s,
{
    let x = a + r;
    let y = b + s;
    assert(x[0] == if a.len() > 0 { a[0] } else { r[0] });
    assert(y[0] == if b.len() > 0 { b[0] } else { s[0] });
    assert(a.len() == b.len());
    assert(x.take(a.len() as int) =~= a);
    assert(y.take(b.len() as int) =~= b);
    assert(x.skip(a.len() as int) =~= r);
    assert(y.skip(b.len() as int) =~= s);
}

proof fn lemma_path_args_tell(flag: Seq<char>, a: Option<String>, b: Option<String>)
    requires
        path_args(flag, a) == path_args(flag, b),
    ensures
        shows_alike(a, b),
{
    lemma_given_is_shown(a);
    lemma_given_is_shown(b);
    if is_given(a) {
        assert(path_args(flag, a).len() == 2);
        assert(path_args(flag, b)[1] == path_args(flag, a)[1]);
    }
    if is_given(b) {
        assert(path_args(flag, b).len() == 2);
    }
}

/// The command line tells what it was made of: two configurations that are started alike
/// agree in every path that is given, in the switches, in the words of the further
/// arguments and in the port. So whoever changes one of these starts another server.
pub proof fn command_line_tells_its_settings(a: SdcppConfig, b: SdcppConfig, p: u16, q: u16)
    requires
        server_args(a, p) == server_args(b, q),
    ensures
        p == q,
        shows_alike(a.full_model_path, b.full_model_path),
        !is_shown(a.full_model_path) ==> shows_alike(
            a.diffusion_model_path,
            b.diffusion_model_path,
        ),
        shows_alike(a.vae_path, b.vae_path),
        shows_alike(a.llm_path, b.llm_path),
        shows_alike(a.clip_l_path, b.clip_l_path),
        shows_alike(a.clip_g_path, b.clip_g_path),
        shows_alike(a.t5xxl_path, b.t5xxl_path),
        a.offload_to_cpu == b.offload_to_cpu,
        a.flash_attention == b.flash_attention,
        words(text_or_empty(a.extra_args)) == words(text_or_empty(b.extra_args)),
{
    lemma_flags_differ();
    lemma_args_from_the_left(a, p);
    lemma_args_from_the_left(b, q);
    lemma_tail_starts_late(a, p);
    lemma_tail_starts_late(b, q);
    lemma_given_is_shown(a.full_model_path);
    lemma_given_is_shown(b.full_model_path);
    let m = middle_args(a, p);
    let n = middle_args(b, q);
    let x = model_args(a) + m;
    let y = model_args(b) + n;
    assert(x[0] == if model_args(a).len() > 0 { model_args(a)[0] } else { m[0] });
    assert(y[0] == if model_args(b).len() > 0 { model_args(b)[0] } else { n[0] });
    if is_given(a.full_model_path) || is_given(b.full_model_path) {
        assert(x[0] == "--model"@ || y[0] == "--model"@);
        assert(is_given(a.full_model_path) && is_given(b.full_model_path));
        lemma_front_is_told("--model"@, model_args(a), model_args(b), m, n, 2);
        lemma_path_args_tell("--model"@, a.full_model_path, b.full_model_path);
    } else {
        lemma_front_is_told("--diffusion-model"@, model_args(a), model_args(b), m, n, 2);
        lemma_path_args_tell(
            "--diffusion-model"@,
            a.diffusion_model_path,
            b.diffusion_model_path,
        );
    }
    lemma_middle_is_told(a, b, p, q);
    lemma_late_is_told(a, b, p, q);
}

/// None of the parts of the command line that follow the model begins like it.
proof fn lemma_tail_starts_late(config: SdcppConfig, port: u16)
    ensures
        ({
            let m = middle_args(config, port);
            &&& m.len() > 0
            &&& m[0] == "--vae"@ || m[0] == "--llm"@ || m[0] == "--clip_l"@ || m[0] == "--clip_g"@
                || m[0] == "--t5xxl"@ || m[0] == "--offload-to-cpu"@ || m[0] == "--diffusion-fa"@
                || m[0] == "--listen-ip"@
            &&& m[0] != "--model"@ && m[0] != "--diffusion-model"@
        }),
{
    lemma_flags_differ();
    lemma_late_starts(config, port);
}

proof fn lemma_late_starts(config: SdcppConfig, port: u16)
    ensures
        ({
            let m = late_args(config, port);
            &&& m.len() > 0
            &&& m[0] == "--t5xxl"@ || m[0] == "--offload-to-cpu"@ || m[0] == "--diffusion-fa"@
                || m[0] == "--listen-ip"@
        }),
{
}

proof fn lemma_middle_is_told(a: SdcppConfig, b: SdcppConfig, p: u16, q: u16)
    requires
        middle_args(a, p) == middle_args(b, q),
    ensures
        shows_alike(a.vae_path, b.vae_path),
        shows_alike(a.llm_path, b.llm_path),
        shows_alike(a.clip_l_path, b.clip_l_path),
        shows_alike(a.clip_g_path, b.clip_g_path),
        late_args(a, p) == late_args(b, q),
{
    lemma_flags_differ();
    lemma_late_starts(a, p);
    lemma_late_starts(b, q);
    let a1 = path_args("--vae"@, a.vae_path);
    let b1 = path_args("--vae"@, b.vae_path);
    let a2 = path_args("--llm"@, a.llm_path);
    let b2 = path_args("--llm"@, b.llm_path);
    let a3 = path_args("--clip_l"@, a.clip_l_path);
    let b3 = path_args("--clip_l"@, b.clip_l_path);
    let a4 = path_args("--clip_g"@, a.clip_g_path);
    let b4 = path_args("--clip_g"@, b.clip_g_path);
    let x4 = a4 + late_args(a, p);
    let y4 = b4 + late_args(b, q);
    let x3 = a3 + x4;
    let y3 = b3 + y4;
    let x2 = a2 + x3;
    let y2 = b2 + y3;
    lemma_front_is_told("--vae"@, a1, b1, x2, y2, 2);
    lemma_front_is_told("--llm"@, a2, b2, x3, y3, 2);
    lemma_front_is_told("--clip_l"@, a3, b3, x4, y4, 2);
    lemma_front_is_told("--clip_g"@, a4, b4, late_args(a, p), late_args(b, q), 2);
    lemma_path_args_tell("--vae"@, a.vae_path, b.vae_path);
    lemma_path_args_tell("--llm"@, a.llm_path, b.llm_path);
    lemma_path_args_tell("--clip_l"@, a.clip_l_path, b.clip_l_path);
    lemma_path_args_tell("--clip_g"@, a.clip_g_path, b.clip_g_path);
}

proof fn lemma_late_is_told(a: SdcppConfig, b: SdcppConfig, p: u16, q: u16)
    requires
        late_args(a, p) == late_args(b, q),
    ensures
        shows_alike(a.t5xxl_path, b.t5xxl_path),
        a.offload_to_cpu == b.offload_to_cpu,
        a.flash_attention == b.flash_attention,
        words(text_or_empty(a.extra_args)) == words(text_or_empty(b.extra_args)),
        p == q,
{
    lemma_flags_differ();
    let i = seq!["--listen-ip"@, "127.0.0.1"@, "--listen-port"@, decimal(p as nat)];
    let k = seq!["--listen-ip"@, "127.0.0.1"@, "--listen-port"@, decimal(q as nat)];
    let v = words(text_or_empty(a.extra_args));
    let w = words(text_or_empty(b.extra_args));
    let a1 = path_args("--t5xxl"@, a.t5xxl_path);
    let b1 = path_args("--t5xxl"@, b.t5xxl_path);
    let a2 = switch_args("--offload-to-cpu"@, a.offload_to_cpu);
    let b2 = switch_args("--offload-to-cpu"@, b.offload_to_cpu);
    let a3 = switch_args("--diffusion-fa"@, a.flash_attention);
    let b3 = switch_args("--diffusion-fa"@, b.flash_attention);
    let x3 = a3 + (i + v);
    let y3 = b3 + (k + w);
    let x2 = a2 + x3;
    let y2 = b2 + y3;
    assert((i + v)[0] == "--listen-ip"@);
    assert((k + w)[0] == "--listen-ip"@);
    lemma_front_is_told("--t5xxl"@, a1, b1, x2, y2, 2);
    lemma_front_is_told("--offload-to-cpu"@, a2, b2, x3, y3, 1);
    lemma_front_is_told("--diffusion-fa"@, a3, b3, i + v, k + w, 1);
    lemma_path_args_tell("--t5xxl"@, a.t5xxl_path, b.t5xxl_path);
    assert(a2.len() == b2.len() && a3.len() == b3.len());
    assert((i + v)[3] == decimal(p as nat));
    assert((k + w)[3] == decimal(q as nat));
    crate::text::lemma_decimal_injective(p as nat, q as nat);
    assert((i + v).skip(4) =~= v);
    assert((k + w).skip(4) =~= w);
}

/// Both texts read the same, where an absent one reads as the empty one.
pub open spec fn reads_alike(a: Option<String>, b: Option<String>) -> bool {
    match (a, b) {
        (Some(a), Some(b)) => a@ == b@,
        (Some(text), None) => text@.len() == 0,
        (None, Some(text)) => text@.len() == 0,
        (None, None) => true,
    }
}

/// The path, if there is one, holds no bar.
pub open spec fn holds_no_bar(path: Option<String>) -> bool {
    path is Some ==> !path->0@.contains('|')
}

/// No path of the configuration holds a bar.
pub open spec fn names_no_bar(config: SdcppConfig) -> bool {
    &&& holds_no_bar(config.full_model_path)
    &&& holds_no_bar(config.diffusion_model_path)
    &&& holds_no_bar(config.vae_path)
    &&& holds_no_bar(config.llm_path)
    &&& holds_no_bar(config.clip_l_path)
    &&& holds_no_bar(config.clip_g_path)
    &&& holds_no_bar(config.t5xxl_path)
}

/// The configurations agree in every setting that the server is started with, but for
/// the port.
pub open spec fn is_set_alike(a: SdcppConfig, b: SdcppConfig) -> bool {
    &&& reads_alike(a.full_model_path, b.full_model_path)
    &&& reads_alike(a.diffusion_model_path, b.diffusion_model_path)
    &&& reads_alike(a.vae_path, b.vae_path)
    &&& reads_alike(a.llm_path, b.llm_path)
    &&& reads_alike(a.clip_l_path, b.clip_l_path)
    &&& reads_alike(a.clip_g_path, b.clip_g_path)
    &&& reads_alike(a.t5xxl_path, b.t5xxl_path)
    &&& a.offload_to_cpu == b.offload_to_cpu
    &&& a.flash_attention == b.flash_attention
    &&& reads_alike(a.extra_args, b.extra_args)
}

/// A fingerprint changes with each of the settings that the server is started with, and
/// with nothing else, where no path holds a bar.
pub proof fn fingerprint_changes_with_each_setting(a: SdcppConfig, b: SdcppConfig)
    requires
        names_no_bar(a),
        names_no_bar(b),
    ensures
        fingerprint(a) == fingerprint(b) <==> is_set_alike(a, b),
{
    fingerprint_tells_bar_free_paths(a, b);
    lemma_reads_alike(a.full_model_path, b.full_model_path);
    lemma_reads_alike(a.diffusion_model_path, b.diffusion_model_path);
    lemma_reads_alike(a.vae_path, b.vae_path);
    lemma_reads_alike(a.llm_path, b.llm_path);
    lemma_reads_alike(a.clip_l_path, b.clip_l_path);
    lemma_reads_alike(a.clip_g_path, b.clip_g_path);
    lemma_reads_alike(a.t5xxl_path, b.t5xxl_path);
    lemma_reads_alike(a.extra_args, b.extra_args);
    reveal_strlit("true");
    reveal_strlit("false");
    assert(truth(true).len() != truth(false).len());
    let p = fingerprint_parts(a);
    let q = fingerprint_parts(b);
    if fingerprint(a) == fingerprint(b) {
        assert(p[0] == q[0] && p[1] == q[1] && p[2] == q[2] && p[3] == q[3] && p[4] == q[4]);
        assert(p[5] == q[5] && p[6] == q[6] && p[7] == q[7] && p[8] == q[8] && p[9] == q[9]);
    }
    if text_or_empty(a.full_model_path) == text_or_empty(b.full_model_path) && text_or_empty(
        a.diffusion_model_path,
    ) == text_or_empty(b.diffusion_model_path) && text_or_empty(a.vae_path) == text_or_empty(
        b.vae_path,
    ) && text_or_empty(a.llm_path) == text_or_empty(b.llm_path) && text_or_empty(a.clip_l_path)
        == text_or_empty(b.clip_l_path) && text_or_empty(a.clip_g_path) == text_or_empty(
        b.clip_g_path,
    ) && text_or_empty(a.t5xxl_path) == text_or_empty(b.t5xxl_path) && a.offload_to_cpu
        == b.offload_to_cpu && a.flash_attention == b.flash_attention && text_or_empty(
        a.extra_args,
    ) == text_or_empty(b.extra_args) {
        assert(p =~= q);
    }
}

proof fn lemma_reads_alike(a: Option<String>, b: Option<String>)
    ensures
        reads_alike(a, b) <==> text_or_empty(a) == text_or_empty(b),
{
    if text_or_empty(a).len() == 0 && text_or_empty(b).len() == 0 {
        assert(text_or_empty(a) =~= text_or_empty(b));
    }
}

/// A port that is named is used, and 17861 where none is.
pub proof fn named_port_is_used(config: SdcppConfig)
    ensures
        config.port matches Some(port) ==> config.chosen_port() == port,
        config.port is None ==> config.chosen_port() == 17861,
{
}

/// Bare configurations differ in nothing but the backend: they name no port, no model and
/// no other file, switch nothing on, and leave the time that an idle server is kept open.
pub proof fn bare_configs_differ_in_the_backend(a: SdcppConfig, b: SdcppConfig)
    requires
        a.is_bare(),
        b.is_bare(),
    ensures
        a == (SdcppConfig { backend: a.backend, ..b }),
        a.chosen_port() == 17861,
        !a.names_model(),
        a.keep_alive_minutes is None,
        !is_shown(a.vae_path) && !is_shown(a.extra_args),
{
}

} // verus!
