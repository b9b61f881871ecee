//! The documented configuration options: for each key its category, type,
//! default, description, examples, valid values or range, when a change
//! takes effect, and security notes.

use vstd::prelude::*;
use crate::ui::config::GraphicsConfig;

verus! {

/// The version that introduced the options.
pub const SINCE_VERSION: &'static str = "0.1.0";

/// When a changed option takes effect.
#[derive(Clone, Copy, Debug, Eq, PartialEq, Structural)]
pub enum ReloadBehavior {
    Runtime,
    NewTerminal,
    Restart,
}

/// Where an option applies.
#[derive(Clone, Copy, Debug, Eq, PartialEq, Structural)]
pub enum Platform {
    All,
    Windows,
    Linux,
    Macos,
}

/// The documented default of an option.
#[derive(Clone, Debug, Eq, PartialEq)]
pub enum ConfigDefault {
    /// No value: the program decides.
    Null,
    Bool(bool),
    Int(u64),
    Text(String),
    Texts(Vec<String>),
}

/// One documented option.
#[derive(Clone, Debug, Eq, PartialEq)]
pub struct ConfigOption {
    pub key: &'static str,
    pub category: &'static str,
    pub value_type: &'static str,
    pub default: ConfigDefault,
    pub description: &'static str,
    pub examples: Vec<String>,
    pub valid_values: Option<Vec<&'static str>>,
    pub range: Option<String>,
    pub reload: ReloadBehavior,
    pub platform: Platform,
    pub security: Option<&'static str>,
    pub since: &'static str,
    pub deprecated: bool,
}

/// `key = value` lines, one per assignment.
pub open spec fn assignment_lines(assignments: Seq<(Seq<char>, Seq<char>)>) -> Seq<char>
    decreases assignments.len(),
{
    if assignments.len() == 0 {
        Seq::empty()
    } else {
        let last = assignments.last();
        assignment_lines(assignments.drop_last()) + last.0 + seq![' ', '=', ' '] + last.1 + seq!['\n']
    }
}

/// A TOML example: the table header, then the assignments.
pub open spec fn spec_toml_example(table: Seq<char>, assignments: Seq<(Seq<char>, Seq<char>)>) -> Seq<char> {
    seq!['['] + table + seq![']', '\n'] + assignment_lines(assignments)
}

pub open spec fn assignment_views(assignments: Seq<(&str, &str)>) -> Seq<(Seq<char>, Seq<char>)> {
    assignments.map_values(|a: (&str, &str)| (a.0@, a.1@))
}

fn push_text_char(out: &mut String, c: char)
    ensures
        final(out)@ == old(out)@.push(c),
{
    let piece = crate::text::single_char_string(c);
    out.append(piece.as_str());
}

/// A TOML example of `assignments` in `table`.
pub fn toml_example(table: &str, assignments: &[(&str, &str)]) -> (r: String)
    ensures
        r@ == spec_toml_example(table@, assignment_views(assignments@)),
{
    let mut example = String::new();
    push_text_char(&mut example, '[');
    example.append(table);
    push_text_char(&mut example, ']');
    push_text_char(&mut example, '\n');
    let ghost head = example@;
    assert(head =~= seq!['['] + table@ + seq![']', '\n']);
    let ghost views = assignment_views(assignments@);
    let mut i: usize = 0;
    while i < assignments.len()
        invariant
            i <= assignments@.len(),
            views == assignment_views(assignments@),
            views.len() == assignments@.len(),
            example@ == head + assignment_lines(views.take(i as int)),
        decreases assignments@.len() - i,
    {
        let (key, value) = assignments[i];
        example.append(key);
        push_text_char(&mut example, ' ');
        push_text_char(&mut example, '=');
        push_text_char(&mut example, ' ');
        example.append(value);
        push_text_char(&mut example, '\n');
        assert(views.take(i + 1).drop_last() =~= views.take(i as int));
        assert(views.take(i + 1).last() == (key@, value@));
        assert(example@ =~= head + assignment_lines(views.take(i + 1)));
        i += 1;
    }
    assert(views.take(assignments@.len() as int) =~= views);
    example
}

fn graphics_option(
    key: &'static str,
    value_type: &'static str,
    default: ConfigDefault,
    description: &'static str,
    example: String,
    range: Option<String>,
    security: Option<&'static str>,
) -> (o: ConfigOption)
    ensures
        o.key == key,
        o.category == "Graphics",
        o.value_type == value_type,
        o.default == default,
        o.description == description,
        o.examples@ == seq![example],
        o.valid_values is None,
        o.range == range,
        o.reload == ReloadBehavior::Runtime,
        o.platform == Platform::All,
        o.security == security,
        o.since == SINCE_VERSION,
        !o.deprecated,
{
    ConfigOption {
        key,
        category: "Graphics",
        value_type,
        default,
        description,
        examples: vec![example],
        valid_values: None,
        range,
        reload: ReloadBehavior::Runtime,
        platform: Platform::All,
        security,
        since: SINCE_VERSION,
        deprecated: false,
    }
}

/// The security note of the graphics limits.
pub const GRAPHICS_LIMIT_SECURITY: &'static str = "端末アプリケーションから受信する画像データに対するメモリ使用量の上限です。";

/// The security note of `graphics.enabled`.
pub const GRAPHICS_ENABLED_SECURITY: &'static str = "無効にすると OSC 1337 payload はデコードせず安全に破棄されます。";

/// The range of every graphics limit.
pub const RANGE_FROM_ONE: &'static str = "1..";

pub const GRAPHICS_ENABLED_DESCRIPTION: &'static str = "iTerm2 OSC 1337 inline PNG image rendering を有効にします。";
pub const GRAPHICS_MAX_ENCODED_BYTES_DESCRIPTION: &'static str = "Base64 文字列と復号後 PNG データに許可する最大バイト数。";
pub const GRAPHICS_MAX_DECODED_BYTES_DESCRIPTION: &'static str = "PNG を RGBA8 へ展開した後に許可する最大バイト数。";
pub const GRAPHICS_MAX_WIDTH_DESCRIPTION: &'static str = "デコードを許可する PNG の最大幅。";
pub const GRAPHICS_MAX_HEIGHT_DESCRIPTION: &'static str = "デコードを許可する PNG の最大高さ。";
pub const GRAPHICS_MAX_PIXELS_DESCRIPTION: &'static str = "デコードを許可する PNG の最大総ピクセル数。";
pub const GRAPHICS_MAX_IMAGES_DESCRIPTION: &'static str = "同時に保持する inline image resource の最大数。";
pub const GRAPHICS_MAX_GPU_BYTES_DESCRIPTION: &'static str = "inline image texture に許可する推定 GPU バイト数の合計。";

/// `o` documents `key` of the `[graphics]` table: its type, default,
/// description, its one example (`[graphics]` with `example_key =
/// example_value`), its range (`1..` for a limit), its security note, and
/// that it takes effect at once on every platform.
pub open spec fn documents_graphics(
    o: ConfigOption,
    key: &str,
    value_type: &str,
    default: ConfigDefault,
    description: &str,
    example_key: &str,
    example_value: &str,
    limit: bool,
    security: &str,
) -> bool {
    &&& o.key == key
    &&& o.category == "Graphics"
    &&& o.value_type == value_type
    &&& o.default == default
    &&& o.description == description
    &&& o.examples@.len() == 1
    &&& o.examples@[0]@ == spec_toml_example("graphics"@, seq![(example_key@, example_value@)])
    &&& o.valid_values is None
    &&& (if limit { o.range matches Some(t) && t@ == RANGE_FROM_ONE@ } else { o.range is None })
    &&& o.reload == ReloadBehavior::Runtime
    &&& o.platform == Platform::All
    &&& o.security == Some(security)
    &&& o.since == SINCE_VERSION
    &&& !o.deprecated
}

/// The options of the `[graphics]` table, with `graphics`'s values as
/// their defaults: whether inline images are shown, then each limit.
/// All take effect at once, and every limit is at least 1.
pub fn graphics_config_options(graphics: &GraphicsConfig) -> (r: Vec<ConfigOption>)
    ensures
        r@.len() == 8,
        documents_graphics(r@[0], "graphics.enabled", "bool", ConfigDefault::Bool(graphics.enabled), GRAPHICS_ENABLED_DESCRIPTION, "enabled", "false", false, GRAPHICS_ENABLED_SECURITY),
        documents_graphics(r@[1], "graphics.max_encoded_bytes", "int", ConfigDefault::Int(graphics.max_encoded_bytes as u64), GRAPHICS_MAX_ENCODED_BYTES_DESCRIPTION, "max_encoded_bytes", "16777216", true, GRAPHICS_LIMIT_SECURITY),
        documents_graphics(r@[2], "graphics.max_decoded_bytes", "int", ConfigDefault::Int(graphics.max_decoded_bytes as u64), GRAPHICS_MAX_DECODED_BYTES_DESCRIPTION, "max_decoded_bytes", "134217728", true, GRAPHICS_LIMIT_SECURITY),
        documents_graphics(r@[3], "graphics.max_width", "int", ConfigDefault::Int(graphics.max_width as u64), GRAPHICS_MAX_WIDTH_DESCRIPTION, "max_width", "8192", true, GRAPHICS_LIMIT_SECURITY),
        documents_graphics(r@[4], "graphics.max_height", "int", ConfigDefault::Int(graphics.max_height as u64), GRAPHICS_MAX_HEIGHT_DESCRIPTION, "max_height", "8192", true, GRAPHICS_LIMIT_SECURITY),
        documents_graphics(r@[5], "graphics.max_pixels", "int", ConfigDefault::Int(graphics.max_pixels), GRAPHICS_MAX_PIXELS_DESCRIPTION, "max_pixels", "32000000", true, GRAPHICS_LIMIT_SECURITY),
        documents_graphics(r@[6], "graphics.max_images", "int", ConfigDefault::Int(graphics.max_images as u64), GRAPHICS_MAX_IMAGES_DESCRIPTION, "max_images", "128", true, GRAPHICS_LIMIT_SECURITY),
        documents_graphics(r@[7], "graphics.max_gpu_bytes", "int", ConfigDefault::Int(graphics.max_gpu_bytes as u64), GRAPHICS_MAX_GPU_BYTES_DESCRIPTION, "max_gpu_bytes", "268435456", true, GRAPHICS_LIMIT_SECURITY),
{
    let enabled_example = [("enabled", "false")];
    let enabled_option = graphics_option(
        "graphics.enabled",
        "bool",
        ConfigDefault::Bool(graphics.enabled),
        GRAPHICS_ENABLED_DESCRIPTION,
        toml_example("graphics", &enabled_example),
        None,
        Some(GRAPHICS_ENABLED_SECURITY),
    );
    assert(assignment_views(enabled_example@) =~= seq![("enabled"@, "false"@)]);
    let max_encoded_bytes_example = [("max_encoded_bytes", "16777216")];
    let max_encoded_bytes_option = graphics_option(
        "graphics.max_encoded_bytes",
        "int",
        ConfigDefault::Int(graphics.max_encoded_bytes as u64),
        GRAPHICS_MAX_ENCODED_BYTES_DESCRIPTION,
        toml_example("graphics", &max_encoded_bytes_example),
        Some(RANGE_FROM_ONE.to_owned()),
        Some(GRAPHICS_LIMIT_SECURITY),
    );
    assert(assignment_views(max_encoded_bytes_example@) =~= seq![("max_encoded_bytes"@, "16777216"@)]);
    let max_decoded_bytes_example = [("max_decoded_bytes", "134217728")];
    let max_decoded_bytes_option = graphics_option(
        "graphics.max_decoded_bytes",
        "int",
        ConfigDefault::Int(graphics.max_decoded_bytes as u64),
        GRAPHICS_MAX_DECODED_BYTES_DESCRIPTION,
        toml_example("graphics", &max_decoded_bytes_example),
        Some(RANGE_FROM_ONE.to_owned()),
        Some(GRAPHICS_LIMIT_SECURITY),
    );
    assert(assignment_views(max_decoded_bytes_example@) =~= seq![("max_decoded_bytes"@, "134217728"@)]);
    let max_width_example = [("max_width", "8192")];
    let max_width_option = graphics_option(
        "graphics.max_width",
        "int",
        ConfigDefault::Int(graphics.max_width as u64),
        GRAPHICS_MAX_WIDTH_DESCRIPTION,
        toml_example("graphics", &max_width_example),
        Some(RANGE_FROM_ONE.to_owned()),
        Some(GRAPHICS_LIMIT_SECURITY),
    );
    assert(assignment_views(max_width_example@) =~= seq![("max_width"@, "8192"@)]);
    let max_height_example = [("max_height", "8192")];
    let max_height_option = graphics_option(
        "graphics.max_height",
        "int",
        ConfigDefault::Int(graphics.max_height as u64),
        GRAPHICS_MAX_HEIGHT_DESCRIPTION,
        toml_example("graphics", &max_height_example),
        Some(RANGE_FROM_ONE.to_owned()),
        Some(GRAPHICS_LIMIT_SECURITY),
    );
    assert(assignment_views(max_height_example@) =~= seq![("max_height"@, "8192"@)]);
    let max_pixels_example = [("max_pixels", "32000000")];
    let max_pixels_option = graphics_option(
        "graphics.max_pixels",
        "int",
        ConfigDefault::Int(graphics.max_pixels),
        GRAPHICS_MAX_PIXELS_DESCRIPTION,
        toml_example("graphics", &max_pixels_example),
        Some(RANGE_FROM_ONE.to_owned()),
        Some(GRAPHICS_LIMIT_SECURITY),
    );
    assert(assignment_views(max_pixels_example@) =~= seq![("max_pixels"@, "32000000"@)]);
    let max_images_example = [("max_images", "128")];
    let max_images_option = graphics_option(
        "graphics.max_images",
        "int",
        ConfigDefault::Int(graphics.max_images as u64),
        GRAPHICS_MAX_IMAGES_DESCRIPTION,
        toml_example("graphics", &max_images_example),
        Some(RANGE_FROM_ONE.to_owned()),
        Some(GRAPHICS_LIMIT_SECURITY),
    );
    assert(assignment_views(max_images_example@) =~= seq![("max_images"@, "128"@)]);
    let max_gpu_bytes_example = [("max_gpu_bytes", "268435456")];
    let max_gpu_bytes_option = graphics_option(
        "graphics.max_gpu_bytes",
        "int",
        ConfigDefault::Int(graphics.max_gpu_bytes as u64),
        GRAPHICS_MAX_GPU_BYTES_DESCRIPTION,
        toml_example("graphics", &max_gpu_bytes_example),
        Some(RANGE_FROM_ONE.to_owned()),
        Some(GRAPHICS_LIMIT_SECURITY),
    );
    assert(assignment_views(max_gpu_bytes_example@) =~= seq![("max_gpu_bytes"@, "268435456"@)]);
    let options = vec![enabled_option, max_encoded_bytes_option, max_decoded_bytes_option, max_width_option, max_height_option, max_pixels_option, max_images_option, max_gpu_bytes_option];
    options
}

} // verus!
