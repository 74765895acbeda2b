//! The models of the small widgets: the colour palette, the button styles,
//! the dialogs' outcomes, the account cards, the brand mark's asset choice
//! and the fork lineage's indentation.
use vstd::prelude::*;

use crate::text::{push_str, string_of, chars_of};

verus! {

/// The colour palette of the interface.
#[derive(Debug, Clone, Copy, PartialEq, Eq, Hash, Structural)]
pub enum ThemePalette {
    Light,
    Dark,
}

impl Default for ThemePalette {
    /// The interface starts dark.
    fn default() -> (p: Self)
        ensures
            p == ThemePalette::Dark,
    {
        ThemePalette::Dark
    }
}

// ----------------------------------------------------------------- buttons

/// The options of a button.
#[derive(Debug, Clone, Copy, Default)]
pub struct BtnOpts {
    pub primary: bool,
    pub small: bool,
    pub disabled: bool,
    pub block: bool,
    pub danger: bool,
}

/// The fill of a button.
#[derive(Debug, Clone, Copy, PartialEq, Eq, Structural)]
pub enum BtnFill {
    /// the danger pill colour
    Danger,
    /// the accent colour
    Accent,
    /// the shell background
    Shell,
}

/// The colour of a button's label.
#[derive(Debug, Clone, Copy, PartialEq, Eq, Structural)]
pub enum BtnText {
    /// the dark ink drawn on a coloured fill
    OnFill,
    /// the palette's primary text colour
    Primary,
}

/// How a button is drawn and whether it reacts to clicks.
#[derive(Debug, Clone, Copy, PartialEq, Eq, Structural)]
pub struct BtnStyle {
    pub fill: BtnFill,
    pub text: BtnText,
    /// takes the whole available width instead of fitting its label
    pub full_width: bool,
    pub clickable: bool,
    /// opacity of the label and border: `alpha_num / alpha_den`
    pub alpha_num: u8,
    pub alpha_den: u8,
}

/// The style of a button: danger wins over primary for the fill, a
/// coloured fill takes dark ink, and a disabled button ignores clicks and
/// is drawn at half opacity.
pub open spec fn btn_style_spec(opts: BtnOpts) -> BtnStyle {
    BtnStyle {
        fill: if opts.danger {
            BtnFill::Danger
        } else if opts.primary {
            BtnFill::Accent
        } else {
            BtnFill::Shell
        },
        text: if opts.danger || opts.primary { BtnText::OnFill } else { BtnText::Primary },
        full_width: opts.block,
        clickable: !opts.disabled,
        alpha_num: 1,
        alpha_den: if opts.disabled { 2 } else { 1 },
    }
}

pub fn btn_style(opts: BtnOpts) -> (s: BtnStyle)
    ensures
        s == btn_style_spec(opts),
{
    let fill = if opts.danger {
        BtnFill::Danger
    } else if opts.primary {
        BtnFill::Accent
    } else {
        BtnFill::Shell
    };
    let text = if opts.danger || opts.primary { BtnText::OnFill } else { BtnText::Primary };
    let alpha_den: u8 = if opts.disabled { 2 } else { 1 };
    BtnStyle { fill, text, full_width: opts.block, clickable: !opts.disabled, alpha_num: 1, alpha_den }
}

// ----------------------------------------------------------------- dialogs

/// What the user did with a confirmation dialog.
#[derive(Debug, Clone, Copy, PartialEq, Eq, Structural)]
pub enum ConfirmOutcome {
    Pending,
    Confirmed,
    Cancelled,
}

impl Default for ConfirmOutcome {
    fn default() -> (o: Self)
        ensures
            o == ConfirmOutcome::Pending,
    {
        ConfirmOutcome::Pending
    }
}

/// A confirmation dialog.
pub struct ConfirmDialog<'a> {
    pub id_salt: &'a str,
    pub title: &'a str,
    pub body: &'a str,
    pub confirm_label: &'a str,
    pub cancel_label: &'a str,
    pub danger: bool,
}

/// The dialog that shares a modlist.
pub struct ShareModlistDialog<'a> {
    pub id_salt: &'a str,
    pub modlist_name: &'a str,
    /// A share code exists; without one both choices are disabled.
    pub has_code: bool,
}

/// What the user did with the share dialog.
#[derive(Debug, Clone, Copy, PartialEq, Eq, Structural)]
pub enum ShareOutcome {
    Pending,
    ExportFile,
    CopyCode,
    Closed,
}

impl Default for ShareOutcome {
    fn default() -> (o: Self)
        ensures
            o == ShareOutcome::Pending,
    {
        ShareOutcome::Pending
    }
}

/// The share dialog's outcome for one frame: a choice counts only while a
/// share code exists; closing (button or Escape) is always possible and
/// wins over a choice made in the same frame.
pub fn share_outcome(
    has_code: bool,
    export_clicked: bool,
    copy_clicked: bool,
    close_clicked: bool,
    escape_pressed: bool,
) -> (o: ShareOutcome)
    ensures
        o == (if close_clicked || escape_pressed {
            ShareOutcome::Closed
        } else if has_code && copy_clicked {
            ShareOutcome::CopyCode
        } else if has_code && export_clicked {
            ShareOutcome::ExportFile
        } else {
            ShareOutcome::Pending
        }),
{
    if close_clicked || escape_pressed {
        ShareOutcome::Closed
    } else if has_code && copy_clicked {
        ShareOutcome::CopyCode
    } else if has_code && export_clicked {
        ShareOutcome::ExportFile
    } else {
        ShareOutcome::Pending
    }
}

// ------------------------------------------------------------ account card

/// Whether an account is connected, and as whom.
#[derive(Debug, Clone, Copy)]
pub enum CardState<'a> {
    Connected { user_label: &'a str },
    NotConnected,
}

/// A card for one external account.
#[derive(Clone, Copy)]
pub struct AccountCard<'a> {
    pub initials: &'a str,
    pub service_name: &'a str,
    pub state: CardState<'a>,
    pub connect_label: &'a str,
    pub disconnect_label: &'a str,
    pub disabled: bool,
}

/// What an account card shows.
pub struct AccountCardView<'a> {
    /// `as @handle` under the service name, for a connected account
    pub handle_line: Option<String>,
    pub button_label: &'a str,
    pub button_primary: bool,
    pub pill_text: &'static str,
}

/// `s` without any leading `@`.
pub open spec fn without_leading_at(s: Seq<char>) -> Seq<char>
    decreases s.len(),
{
    if s.len() > 0 && s[0] == '@' {
        without_leading_at(s.drop_first())
    } else {
        s
    }
}

/// What a card shows: a connected account names its handle (without the
/// `@` the label may carry) and offers to disconnect; an unconnected one
/// offers to connect, as the primary button.
pub fn account_card_view<'a>(card: &AccountCard<'a>) -> (v: AccountCardView<'a>)
    ensures
        match card.state {
            CardState::Connected { user_label } => {
                &&& v.handle_line matches Some(l) && l@ == "as @"@ + without_leading_at(user_label@)
                &&& v.button_label == card.disconnect_label
                &&& !v.button_primary
                &&& v.pill_text@ == "connected"@
            },
            CardState::NotConnected => {
                &&& v.handle_line is None
                &&& v.button_label == card.connect_label
                &&& v.button_primary
                &&& v.pill_text@ == "not connected"@
            },
        },
{
    match card.state {
        CardState::Connected { user_label } => {
            let cs = chars_of(user_label);
            let mut start: usize = 0;
            assert(cs@.skip(0) =~= cs@);
            while start < cs.len() && cs[start] == '@'
                invariant
                    start <= cs@.len(),
                    without_leading_at(cs@.skip(start as int)) == without_leading_at(user_label@),
                    cs@ == user_label@,
                decreases cs@.len() - start,
            {
                assert(cs@.skip(start as int).drop_first() =~= cs@.skip(start + 1));
                start += 1;
            }
            assert(without_leading_at(cs@.skip(start as int)) == cs@.skip(start as int));
            let mut rest: Vec<char> = Vec::new();
            let mut i: usize = start;
            while i < cs.len()
                invariant
                    start <= i <= cs@.len(),
                    rest@ == cs@.subrange(start as int, i as int),
                decreases cs@.len() - i,
            {
                rest.push(cs[i]);
                i += 1;
                assert(rest@ =~= cs@.subrange(start as int, i as int));
            }
            assert(rest@ =~= cs@.skip(start as int));
            let mut line = String::from_str("as @");
            let handle = string_of(&rest);
            push_str(&mut line, handle.as_str());
            proof {
                reveal_strlit("as @");
                reveal_strlit("connected");
            }
            AccountCardView {
                handle_line: Some(line),
                button_label: card.disconnect_label,
                button_primary: false,
                pill_text: "connected",
            }
        },
        CardState::NotConnected => {
            proof {
                reveal_strlit("not connected");
            }
            AccountCardView {
                handle_line: None,
                button_label: card.connect_label,
                button_primary: true,
                pill_text: "not connected",
            }
        },
    }
}

// -------------------------------------------------------------- brand mark

/// The size of the brand-mark image drawn for a texture of `size_px`
/// pixels: the smallest of the 64, 128 and 256 pixel images that covers it.
pub open spec fn brand_asset_size_spec(size_px: u32) -> u32 {
    if size_px <= 64 {
        64
    } else if size_px <= 128 {
        128
    } else {
        256
    }
}

pub fn brand_asset_size(size_px: u32) -> (s: u32)
    ensures
        s == brand_asset_size_spec(size_px),
{
    if size_px <= 64 {
        64
    } else if size_px <= 128 {
        128
    } else {
        256
    }
}

// ---------------------------------------------------------------- lineage

/// Ancestors deeper than this are indented no further.
pub const MAX_INDENT_GENERATIONS: usize = 6;

/// How many indentation steps a row of the fork lineage gets.
pub fn indent_generations(generation: usize) -> (g: u16)
    ensures
        g == (if generation <= MAX_INDENT_GENERATIONS { generation } else { MAX_INDENT_GENERATIONS }),
{
    if generation <= MAX_INDENT_GENERATIONS {
        generation as u16
    } else {
        MAX_INDENT_GENERATIONS as u16
    }
}

/// The modlist itself, at the foot of its lineage.
pub struct SelfNode<'a> {
    pub name: &'a str,
    /// may be empty: the author is then not shown
    pub author: &'a str,
}

/// What the step 5 page is drawn with.
#[derive(Clone, Copy)]
pub struct Step5RenderCtx<'a> {
    pub dev_mode: bool,
    pub exe_fingerprint: &'a str,
    pub palette: ThemePalette,
}

} // verus!
