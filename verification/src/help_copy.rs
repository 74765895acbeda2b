//! The help texts shown by the "?" button of each wizard page.
use vstd::prelude::*;

verus! {

/// Which page's help to show.
#[derive(Debug, Clone, Copy, PartialEq, Eq, Structural)]
pub enum HelpPage {
    Step2 { created_from_mods: bool },
    Step3,
    Step4,
    Step5,
    Downloading { manual_downloads: bool },
    Installing,
}

/// One bullet: an optional bold lead-in and the body text.
pub struct HelpBullet {
    pub lead: Option<&'static str>,
    pub body: &'static str,
}

/// A help page: its title and bullets.
pub struct HelpText {
    pub title: &'static str,
    pub bullets: Vec<HelpBullet>,
}

pub const STEP2_TICK: &'static str = "Tick the mods and components you want. Open a mod with its arrow to see its \
             components; the counter on the right shows how many are ticked for this game.";
pub const STEP2_DETAILS: &'static str = "Click the ? while hovering over a mod or component to read about it in the \
             Details panel.";
pub const STEP2_VERSIONS: &'static str = "The Versions\u{2026} button allows you to check for updates to your mods or pin \
             the mod source to another fork, commit hash, release tag, branch, etc. (This is \
             an advanced feature, so feel free to ask for help on the BIO Discord.)";
pub const STEP2_PILLS: &'static str = "A yellow PROMPT pill means the component asks questions during install; a red \
             pill is a compatibility problem. Click either to see why.";
pub const STEP2_GAME_TABS: &'static str = "Each game tab keeps its own selection. \"Select <game> via WeiDU Log\" ticks \
             everything listed in an existing weidu.log.";
pub const STEP2_ADD_MODS: &'static str = "To learn how to add mods, use the \"?\" next to Rescan Mods.";
pub const STEP2_TITLE: &'static str = "Choose what to install";
pub const STEP3_TITLE: &'static str = "Set the install order";
pub const STEP3_ORDER: &'static str = "Mods install from the top of this list to the bottom. Drag a component to \
                 move it; drag a mod's header to move the whole mod.";
pub const STEP3_SELECT: &'static str = "Click, Ctrl-click and Shift-click select several rows. Right-click, then \
                 \"Move selection to top\" or \"Move selection to bottom\" sends them to \
                 either end.";
pub const STEP3_AUTOMATIC_LEAD: &'static str = "This is where you make an install fully automatic.";
pub const STEP3_PROMPTS: &'static str = "A yellow PROMPT pill marks a component that asks questions during install; \
                 click the pill to see them. Right-click the component \u{2192} \"Set \
                 @wlb-inputs\u{2026}\" and type the answers in the order they are asked, \
                 separated by commas (for example y,2,n). BIO types them for you during the \
                 install, so it never stops to wait. \"Clear Prompt Data\" removes them.";
pub const STEP3_PADLOCK: &'static str = "The padlock on a mod header holds that mod in place. Undo and Redo step \
                 through your changes; Collapse All and Expand All fold the list.";
pub const STEP3_UNCHECK: &'static str = "Right-click a component to uncheck it back in Step 2. Right-click a mod \
                 header \u{2192} \"Clone Parent\" makes a second, empty header you can drag \
                 components into, to split one mod across two places in the order.";
pub const STEP3_COUNTS: &'static str = "The counts on the game tabs are compatibility conflicts and issues; click a \
                 pill on a row to read the rule. Conflicts must be cleared before the install \
                 will start.";
pub const STEP4_TITLE: &'static str = "Review";
pub const STEP4_FINAL: &'static str = "This is the final order, exactly as it will be written to each game's \
                 weidu.log. Nothing here is editable.";
pub const STEP4_TABS: &'static str = "Switch game tabs to check each game. \"Save weidu.log\" writes the file or \
                 files out if you want a copy.";
pub const STEP4_BACK: &'static str = "Something wrong? Go back with Previous and fix it in Step 2 or Step 3.";
pub const STEP5_TITLE: &'static str = "Install";
pub const STEP5_START: &'static str = "Install starts the run: BIO prepares the install folder, then runs each mod \
                 in order. The console shows WeiDU's live output.";
pub const STEP5_QUESTIONS: &'static str = "If a mod asks a question, type the answer in the box under the console. \
                 NOTE: we recommend pre-inputting your answers in Step 3 so your install \
                 won't get interrupted to wait for your inputs.";
pub const STEP5_FILTERS: &'static str = "General, Important Only and Installed Only filter the console; Auto-scroll \
                 follows the newest line. The Actions menu copies or saves the console log and \
                 opens the logs folder.";
pub const STEP5_CANCEL: &'static str = "Cancel stops the run. After a failure the button becomes Resume and picks up \
                 where it stopped.";
pub const STEP5_FINISH: &'static str = "When it finishes, Open install folder shows the modded game and Return to \
                 Home goes back to your lists.";
pub const DOWNLOADING_FIRST: &'static str = "BIO first checks your Mods archive folder for archives it already has, \
             downloads the rest, then extracts everything. When extraction finishes it \
             moves on by itself.";
pub const DOWNLOADING_ROWS: &'static str = "Each row is one mod archive with its status. The bar at the top is the \
             overall progress.";
pub const DOWNLOADING_KEPT: &'static str = "Archives already downloaded stay in your Mods archive folder, so a cancelled \
         run does not download them again.";
pub const DOWNLOADING_TITLE: &'static str = "What's happening while BIO downloads";
pub const MANUAL_BOX: &'static str = "A Manual downloads box appears when BIO cannot fetch a mod itself, such as a \
                 Nexus Mods page or a mod with no download source. Open page opens the mod's \
                 download page; save the file into your Mods archive folder and BIO finds it \
                 within a few seconds, or use Pick file\u{2026} to point at it.";
pub const MANUAL_KEEPS_GOING: &'static str = "Everything else keeps downloading while you do that. Only extraction waits \
                 for the manual mods.";
pub const MANUAL_CONTINUE_WITHOUT: &'static str = "\"Continue without\" skips the missing mods: the rest is extracted and the \
                 list opens on Mods / Components so you can decide what to do. Anything that \
                 depends on a skipped mod may fail.";
pub const INSTALLING_TITLE: &'static str = "What's happening during the install";
pub const INSTALLING_ORDER: &'static str = "BIO works through this list by itself, installing the mods one at a time in \
                 the list's order.";
pub const INSTALLING_CONSOLE: &'static str = "The console is WeiDU's live output; the progress line above it shows which \
                 mod is installing and how many are left.";
pub const INSTALLING_QUESTIONS: &'static str = "If a mod asks a question BIO has no saved answer for, the install waits. \
                 Type the answer in the box under the console and press Enter.";
pub const INSTALLING_CANCEL: &'static str = "Cancel stops the run. After a stop or a failure the button becomes Resume and \
                 continues from the same mod. Leave the game folder alone while a run is \
                 active.";
pub const INSTALLING_FINISH: &'static str = "When it finishes, Open install folder shows the modded game.";

/// A bullet without a lead-in.
pub fn bullet(body: &'static str) -> (b: HelpBullet)
    ensures
        b.lead is None,
        b.body == body,
{
    HelpBullet { lead: None, body }
}

/// A bullet with a lead-in.
pub fn led_bullet(lead: &'static str, body: &'static str) -> (b: HelpBullet)
    ensures
        b.lead == Some(lead),
        b.body == body,
{
    HelpBullet { lead: Some(lead), body }
}

/// The bodies of the bullets, in order.
pub open spec fn bodies(bullets: Seq<HelpBullet>) -> Seq<&'static str> {
    Seq::new(bullets.len(), |i: int| bullets[i].body)
}


/// The bodies of the step 2 page.
pub open spec fn step2_bodies(created_from_mods: bool) -> Seq<&'static str> {
    let base = seq![STEP2_TICK, STEP2_DETAILS, STEP2_VERSIONS, STEP2_PILLS];
    if created_from_mods {
        base + seq![STEP2_GAME_TABS, STEP2_ADD_MODS]
    } else {
        base
    }
}

/// The bodies of the downloading page.
pub open spec fn downloading_bodies(manual_downloads: bool) -> Seq<&'static str> {
    let head = seq![DOWNLOADING_FIRST, DOWNLOADING_ROWS];
    let middle = if manual_downloads {
        seq![MANUAL_BOX, MANUAL_KEEPS_GOING, MANUAL_CONTINUE_WITHOUT]
    } else {
        seq![]
    };
    head + middle + seq![DOWNLOADING_KEPT]
}

/// The title of each page.
pub open spec fn page_title(page: HelpPage) -> &'static str {
    match page {
        HelpPage::Step2 { .. } => STEP2_TITLE,
        HelpPage::Step3 => STEP3_TITLE,
        HelpPage::Step4 => STEP4_TITLE,
        HelpPage::Step5 => STEP5_TITLE,
        HelpPage::Downloading { .. } => DOWNLOADING_TITLE,
        HelpPage::Installing => INSTALLING_TITLE,
    }
}

/// The bullet bodies of each page, in order.
pub open spec fn page_bodies(page: HelpPage) -> Seq<&'static str> {
    match page {
        HelpPage::Step2 { created_from_mods } => step2_bodies(created_from_mods),
        HelpPage::Step3 => seq![
            STEP3_ORDER,
            STEP3_SELECT,
            STEP3_PROMPTS,
            STEP3_PADLOCK,
            STEP3_UNCHECK,
            STEP3_COUNTS,
        ],
        HelpPage::Step4 => seq![STEP4_FINAL, STEP4_TABS, STEP4_BACK],
        HelpPage::Step5 => seq![STEP5_START, STEP5_QUESTIONS, STEP5_FILTERS, STEP5_CANCEL, STEP5_FINISH],
        HelpPage::Downloading { manual_downloads } => downloading_bodies(manual_downloads),
        HelpPage::Installing => seq![
            INSTALLING_ORDER,
            INSTALLING_CONSOLE,
            INSTALLING_QUESTIONS,
            INSTALLING_CANCEL,
            INSTALLING_FINISH,
        ],
    }
}

/// Every bullet has no lead-in, except the third bullet of step 3.
pub open spec fn leads_as_designed(page: HelpPage, bullets: Seq<HelpBullet>) -> bool {
    forall|i: int|
        0 <= i < bullets.len() ==> (#[trigger] bullets[i]).lead == (if page == HelpPage::Step3 && i == 2 {
            Some(STEP3_AUTOMATIC_LEAD)
        } else {
            None
        })
}

fn step2_text(created_from_mods: bool) -> (t: HelpText)
    ensures
        t.title == STEP2_TITLE,
        bodies(t.bullets@) == step2_bodies(created_from_mods),
        forall|i: int| 0 <= i < t.bullets@.len() ==> (#[trigger] t.bullets@[i]).lead is None,
{
    let mut bullets: Vec<HelpBullet> = Vec::new();
    bullets.push(bullet(STEP2_TICK));
    bullets.push(bullet(STEP2_DETAILS));
    bullets.push(bullet(STEP2_VERSIONS));
    bullets.push(bullet(STEP2_PILLS));
    if created_from_mods {
        bullets.push(bullet(STEP2_GAME_TABS));
        bullets.push(bullet(STEP2_ADD_MODS));
    }
    assert(bodies(bullets@) =~= step2_bodies(created_from_mods));
    HelpText { title: STEP2_TITLE, bullets }
}

fn step3_text() -> (t: HelpText)
    ensures
        t.title == STEP3_TITLE,
        bodies(t.bullets@) == page_bodies(HelpPage::Step3),
        leads_as_designed(HelpPage::Step3, t.bullets@),
{
    let mut bullets: Vec<HelpBullet> = Vec::new();
    bullets.push(bullet(STEP3_ORDER));
    bullets.push(bullet(STEP3_SELECT));
    bullets.push(led_bullet(STEP3_AUTOMATIC_LEAD, STEP3_PROMPTS));
    bullets.push(bullet(STEP3_PADLOCK));
    bullets.push(bullet(STEP3_UNCHECK));
    bullets.push(bullet(STEP3_COUNTS));
    assert(bodies(bullets@) =~= page_bodies(HelpPage::Step3));
    HelpText { title: STEP3_TITLE, bullets }
}

fn step4_text() -> (t: HelpText)
    ensures
        t.title == STEP4_TITLE,
        bodies(t.bullets@) == page_bodies(HelpPage::Step4),
        forall|i: int| 0 <= i < t.bullets@.len() ==> (#[trigger] t.bullets@[i]).lead is None,
{
    let mut bullets: Vec<HelpBullet> = Vec::new();
    bullets.push(bullet(STEP4_FINAL));
    bullets.push(bullet(STEP4_TABS));
    bullets.push(bullet(STEP4_BACK));
    assert(bodies(bullets@) =~= page_bodies(HelpPage::Step4));
    HelpText { title: STEP4_TITLE, bullets }
}

fn step5_text() -> (t: HelpText)
    ensures
        t.title == STEP5_TITLE,
        bodies(t.bullets@) == page_bodies(HelpPage::Step5),
        forall|i: int| 0 <= i < t.bullets@.len() ==> (#[trigger] t.bullets@[i]).lead is None,
{
    let mut bullets: Vec<HelpBullet> = Vec::new();
    bullets.push(bullet(STEP5_START));
    bullets.push(bullet(STEP5_QUESTIONS));
    bullets.push(bullet(STEP5_FILTERS));
    bullets.push(bullet(STEP5_CANCEL));
    bullets.push(bullet(STEP5_FINISH));
    assert(bodies(bullets@) =~= page_bodies(HelpPage::Step5));
    HelpText { title: STEP5_TITLE, bullets }
}

fn manual_download_bullets() -> (v: Vec<HelpBullet>)
    ensures
        bodies(v@) == seq![MANUAL_BOX, MANUAL_KEEPS_GOING, MANUAL_CONTINUE_WITHOUT],
        forall|i: int| 0 <= i < v@.len() ==> (#[trigger] v@[i]).lead is None,
{
    let mut v: Vec<HelpBullet> = Vec::new();
    v.push(bullet(MANUAL_BOX));
    v.push(bullet(MANUAL_KEEPS_GOING));
    v.push(bullet(MANUAL_CONTINUE_WITHOUT));
    assert(bodies(v@) =~= seq![MANUAL_BOX, MANUAL_KEEPS_GOING, MANUAL_CONTINUE_WITHOUT]);
    v
}

fn downloading_text(manual_downloads: bool) -> (t: HelpText)
    ensures
        t.title == DOWNLOADING_TITLE,
        bodies(t.bullets@) == downloading_bodies(manual_downloads),
        forall|i: int| 0 <= i < t.bullets@.len() ==> (#[trigger] t.bullets@[i]).lead is None,
{
    let mut bullets: Vec<HelpBullet> = Vec::new();
    bullets.push(bullet(DOWNLOADING_FIRST));
    bullets.push(bullet(DOWNLOADING_ROWS));
    if manual_downloads {
        let mut extra = manual_download_bullets();
        bullets.append(&mut extra);
    }
    bullets.push(bullet(DOWNLOADING_KEPT));
    assert(bodies(bullets@) =~= downloading_bodies(manual_downloads));
    HelpText { title: DOWNLOADING_TITLE, bullets }
}

fn installing_text() -> (t: HelpText)
    ensures
        t.title == INSTALLING_TITLE,
        bodies(t.bullets@) == page_bodies(HelpPage::Installing),
        forall|i: int| 0 <= i < t.bullets@.len() ==> (#[trigger] t.bullets@[i]).lead is None,
{
    let mut bullets: Vec<HelpBullet> = Vec::new();
    bullets.push(bullet(INSTALLING_ORDER));
    bullets.push(bullet(INSTALLING_CONSOLE));
    bullets.push(bullet(INSTALLING_QUESTIONS));
    bullets.push(bullet(INSTALLING_CANCEL));
    bullets.push(bullet(INSTALLING_FINISH));
    assert(bodies(bullets@) =~= page_bodies(HelpPage::Installing));
    HelpText { title: INSTALLING_TITLE, bullets }
}

/// The help text of a page: its title, its bullets in order, and a lead-in
/// on the step 3 bullet about automatic installs only.
pub fn help_text(page: HelpPage) -> (t: HelpText)
    ensures
        t.title == page_title(page),
        bodies(t.bullets@) == page_bodies(page),
        leads_as_designed(page, t.bullets@),
{
    match page {
        HelpPage::Step2 { created_from_mods } => step2_text(created_from_mods),
        HelpPage::Step3 => step3_text(),
        HelpPage::Step4 => step4_text(),
        HelpPage::Step5 => step5_text(),
        HelpPage::Downloading { manual_downloads } => downloading_text(manual_downloads),
        HelpPage::Installing => installing_text(),
    }
}

/// The key under which a page's help popup is remembered.
pub fn page_salt(page: HelpPage) -> (r: &'static str)
    ensures
        r@ == match page {
            HelpPage::Step2 { .. } => "step2"@,
            HelpPage::Step3 => "step3"@,
            HelpPage::Step4 => "step4"@,
            HelpPage::Step5 => "step5"@,
            HelpPage::Downloading { .. } => "downloading"@,
            HelpPage::Installing => "installing"@,
        },
{
    match page {
        HelpPage::Step2 { .. } => "step2",
        HelpPage::Step3 => "step3",
        HelpPage::Step4 => "step4",
        HelpPage::Step5 => "step5",
        HelpPage::Downloading { .. } => "downloading",
        HelpPage::Installing => "installing",
    }
}

/// Every page has a title and at least three bullets.
pub proof fn law_every_help_page_has_a_title_and_bullets(page: HelpPage)
    ensures
        page_title(page)@.len() > 0,
        page_bodies(page).len() >= 3,
{
    reveal_strlit("Choose what to install");
    reveal_strlit("Set the install order");
    reveal_strlit("Review");
    reveal_strlit("Install");
    reveal_strlit("What's happening while BIO downloads");
    reveal_strlit("What's happening during the install");
}

/// The step 3 page has six bullets and exactly one lead-in (on its third
/// bullet, the one on prompts), and that bullet names the "Set
/// @wlb-inputs" action and says the answers are separated by commas.
pub proof fn law_step3_help_explains_prompt_inputs(bullets: Seq<HelpBullet>)
    requires
        bodies(bullets) == page_bodies(HelpPage::Step3),
        leads_as_designed(HelpPage::Step3, bullets),
    ensures
        bullets.len() == 6,
        forall|i: int| 0 <= i < bullets.len() ==> ((#[trigger] bullets[i]).lead is Some <==> i == 2),
        crate::console_text::has_part(bullets[2].body@, "Set @wlb-inputs"@),
        crate::console_text::has_part(bullets[2].body@, "separated by commas"@),
{
    reveal_strlit("A yellow PROMPT pill marks a component that asks questions during install; \
                 click the pill to see them. Right-click the component \u{2192} \"Set \
                 @wlb-inputs\u{2026}\" and type the answers in the order they are asked, \
                 separated by commas (for example y,2,n). BIO types them for you during the \
                 install, so it never stops to wait. \"Clear Prompt Data\" removes them.");
    reveal_strlit("Set @wlb-inputs");
    reveal_strlit("separated by commas");
    assert(bodies(bullets).len() == 6);
    assert(bullets[2].body == bodies(bullets)[2]);
    let b = bullets[2].body@;
    assert(b.subrange(132int, 132int + "Set @wlb-inputs"@.len()) =~= "Set @wlb-inputs"@);
    assert(b.subrange(200int, 200int + "separated by commas"@.len()) =~= "separated by commas"@);
}

// ------------------------------------------------------ retired wording

/// The wording of a retired feature, which no help text may use.
pub open spec fn retired_wording() -> Seq<char> {
    "Edit Prompt JSON"@
}

/// A text without the letter `J` cannot hold the retired wording.
proof fn lemma_without_j(s: Seq<char>)
    requires
        !s.contains('J'),
    ensures
        !crate::console_text::has_part(s, retired_wording()),
{
    reveal_strlit("Edit Prompt JSON");
    if crate::console_text::has_part(s, retired_wording()) {
        let i = choose|i: int|
            0 <= i && i + retired_wording().len() <= s.len() && #[trigger] s.subrange(i, i + retired_wording().len())
                == retired_wording();
        assert(s.subrange(i, i + retired_wording().len())[12] == 'J');
        assert(s[i + 12] == 'J');
    }
}

proof fn lemma_no_j_step2_tick()
    ensures
        !STEP2_TICK@.contains('J'),
{
    reveal_strlit("Tick the mods and components you want. Open a mod with its arrow to see its \
             components; the counter on the right shows how many are ticked for this game.");
}

proof fn lemma_no_j_step2_details()
    ensures
        !STEP2_DETAILS@.contains('J'),
{
    reveal_strlit("Click the ? while hovering over a mod or component to read about it in the \
             Details panel.");
}

proof fn lemma_no_j_step2_versions()
    ensures
        !STEP2_VERSIONS@.contains('J'),
{
    reveal_strlit("The Versions\u{2026} button allows you to check for updates to your mods or pin \
             the mod source to another fork, commit hash, release tag, branch, etc. (This is \
             an advanced feature, so feel free to ask for help on the BIO Discord.)");
}

proof fn lemma_no_j_step2_pills()
    ensures
        !STEP2_PILLS@.contains('J'),
{
    reveal_strlit("A yellow PROMPT pill means the component asks questions during install; a red \
             pill is a compatibility problem. Click either to see why.");
}

proof fn lemma_no_j_step2_game_tabs()
    ensures
        !STEP2_GAME_TABS@.contains('J'),
{
    reveal_strlit("Each game tab keeps its own selection. \"Select <game> via WeiDU Log\" ticks \
             everything listed in an existing weidu.log.");
}

proof fn lemma_no_j_step2_add_mods()
    ensures
        !STEP2_ADD_MODS@.contains('J'),
{
    reveal_strlit("To learn how to add mods, use the \"?\" next to Rescan Mods.");
}

proof fn lemma_no_j_step2_title()
    ensures
        !STEP2_TITLE@.contains('J'),
{
    reveal_strlit("Choose what to install");
}

proof fn lemma_no_j_step3_title()
    ensures
        !STEP3_TITLE@.contains('J'),
{
    reveal_strlit("Set the install order");
}

proof fn lemma_no_j_step3_order()
    ensures
        !STEP3_ORDER@.contains('J'),
{
    reveal_strlit("Mods install from the top of this list to the bottom. Drag a component to \
                 move it; drag a mod's header to move the whole mod.");
}

proof fn lemma_no_j_step3_select()
    ensures
        !STEP3_SELECT@.contains('J'),
{
    reveal_strlit("Click, Ctrl-click and Shift-click select several rows. Right-click, then \
                 \"Move selection to top\" or \"Move selection to bottom\" sends them to \
                 either end.");
}

proof fn lemma_no_j_step3_automatic_lead()
    ensures
        !STEP3_AUTOMATIC_LEAD@.contains('J'),
{
    reveal_strlit("This is where you make an install fully automatic.");
}

proof fn lemma_no_j_step3_prompts()
    ensures
        !STEP3_PROMPTS@.contains('J'),
{
    reveal_strlit("A yellow PROMPT pill marks a component that asks questions during install; \
                 click the pill to see them. Right-click the component \u{2192} \"Set \
                 @wlb-inputs\u{2026}\" and type the answers in the order they are asked, \
                 separated by commas (for example y,2,n). BIO types them for you during the \
                 install, so it never stops to wait. \"Clear Prompt Data\" removes them.");
}

proof fn lemma_no_j_step3_padlock()
    ensures
        !STEP3_PADLOCK@.contains('J'),
{
    reveal_strlit("The padlock on a mod header holds that mod in place. Undo and Redo step \
                 through your changes; Collapse All and Expand All fold the list.");
}

proof fn lemma_no_j_step3_uncheck()
    ensures
        !STEP3_UNCHECK@.contains('J'),
{
    reveal_strlit("Right-click a component to uncheck it back in Step 2. Right-click a mod \
                 header \u{2192} \"Clone Parent\" makes a second, empty header you can drag \
                 components into, to split one mod across two places in the order.");
}

proof fn lemma_no_j_step3_counts()
    ensures
        !STEP3_COUNTS@.contains('J'),
{
    reveal_strlit("The counts on the game tabs are compatibility conflicts and issues; click a \
                 pill on a row to read the rule. Conflicts must be cleared before the install \
                 will start.");
}

proof fn lemma_no_j_step4_title()
    ensures
        !STEP4_TITLE@.contains('J'),
{
    reveal_strlit("Review");
}

proof fn lemma_no_j_step4_final()
    ensures
        !STEP4_FINAL@.contains('J'),
{
    reveal_strlit("This is the final order, exactly as it will be written to each game's \
                 weidu.log. Nothing here is editable.");
}

proof fn lemma_no_j_step4_tabs()
    ensures
        !STEP4_TABS@.contains('J'),
{
    reveal_strlit("Switch game tabs to check each game. \"Save weidu.log\" writes the file or \
                 files out if you want a copy.");
}

proof fn lemma_no_j_step4_back()
    ensures
        !STEP4_BACK@.contains('J'),
{
    reveal_strlit("Something wrong? Go back with Previous and fix it in Step 2 or Step 3.");
}

proof fn lemma_no_j_step5_title()
    ensures
        !STEP5_TITLE@.contains('J'),
{
    reveal_strlit("Install");
}

proof fn lemma_no_j_step5_start()
    ensures
        !STEP5_START@.contains('J'),
{
    reveal_strlit("Install starts the run: BIO prepares the install folder, then runs each mod \
                 in order. The console shows WeiDU's live output.");
}

proof fn lemma_no_j_step5_questions()
    ensures
        !STEP5_QUESTIONS@.contains('J'),
{
    reveal_strlit("If a mod asks a question, type the answer in the box under the console. \
                 NOTE: we recommend pre-inputting your answers in Step 3 so your install \
                 won't get interrupted to wait for your inputs.");
}

proof fn lemma_no_j_step5_filters()
    ensures
        !STEP5_FILTERS@.contains('J'),
{
    reveal_strlit("General, Important Only and Installed Only filter the console; Auto-scroll \
                 follows the newest line. The Actions menu copies or saves the console log and \
                 opens the logs folder.");
}

proof fn lemma_no_j_step5_cancel()
    ensures
        !STEP5_CANCEL@.contains('J'),
{
    reveal_strlit("Cancel stops the run. After a failure the button becomes Resume and picks up \
                 where it stopped.");
}

proof fn lemma_no_j_step5_finish()
    ensures
        !STEP5_FINISH@.contains('J'),
{
    reveal_strlit("When it finishes, Open install folder shows the modded game and Return to \
                 Home goes back to your lists.");
}

proof fn lemma_no_j_downloading_first()
    ensures
        !DOWNLOADING_FIRST@.contains('J'),
{
    reveal_strlit("BIO first checks your Mods archive folder for archives it already has, \
             downloads the rest, then extracts everything. When extraction finishes it \
             moves on by itself.");
}

proof fn lemma_no_j_downloading_rows()
    ensures
        !DOWNLOADING_ROWS@.contains('J'),
{
    reveal_strlit("Each row is one mod archive with its status. The bar at the top is the \
             overall progress.");
}

proof fn lemma_no_j_downloading_kept()
    ensures
        !DOWNLOADING_KEPT@.contains('J'),
{
    reveal_strlit("Archives already downloaded stay in your Mods archive folder, so a cancelled \
         run does not download them again.");
}

proof fn lemma_no_j_downloading_title()
    ensures
        !DOWNLOADING_TITLE@.contains('J'),
{
    reveal_strlit("What's happening while BIO downloads");
}

proof fn lemma_no_j_manual_box()
    ensures
        !MANUAL_BOX@.contains('J'),
{
    reveal_strlit("A Manual downloads box appears when BIO cannot fetch a mod itself, such as a \
                 Nexus Mods page or a mod with no download source. Open page opens the mod's \
                 download page; save the file into your Mods archive folder and BIO finds it \
                 within a few seconds, or use Pick file\u{2026} to point at it.");
}

proof fn lemma_no_j_manual_keeps_going()
    ensures
        !MANUAL_KEEPS_GOING@.contains('J'),
{
    reveal_strlit("Everything else keeps downloading while you do that. Only extraction waits \
                 for the manual mods.");
}

proof fn lemma_no_j_manual_continue_without()
    ensures
        !MANUAL_CONTINUE_WITHOUT@.contains('J'),
{
    reveal_strlit("\"Continue without\" skips the missing mods: the rest is extracted and the \
                 list opens on Mods / Components so you can decide what to do. Anything that \
                 depends on a skipped mod may fail.");
}

proof fn lemma_no_j_installing_title()
    ensures
        !INSTALLING_TITLE@.contains('J'),
{
    reveal_strlit("What's happening during the install");
}

proof fn lemma_no_j_installing_order()
    ensures
        !INSTALLING_ORDER@.contains('J'),
{
    reveal_strlit("BIO works through this list by itself, installing the mods one at a time in \
                 the list's order.");
}

proof fn lemma_no_j_installing_console()
    ensures
        !INSTALLING_CONSOLE@.contains('J'),
{
    reveal_strlit("The console is WeiDU's live output; the progress line above it shows which \
                 mod is installing and how many are left.");
}

proof fn lemma_no_j_installing_questions()
    ensures
        !INSTALLING_QUESTIONS@.contains('J'),
{
    reveal_strlit("If a mod asks a question BIO has no saved answer for, the install waits. \
                 Type the answer in the box under the console and press Enter.");
}

proof fn lemma_no_j_installing_cancel()
    ensures
        !INSTALLING_CANCEL@.contains('J'),
{
    reveal_strlit("Cancel stops the run. After a stop or a failure the button becomes Resume and \
                 continues from the same mod. Leave the game folder alone while a run is \
                 active.");
}

proof fn lemma_no_j_installing_finish()
    ensures
        !INSTALLING_FINISH@.contains('J'),
{
    reveal_strlit("When it finishes, Open install folder shows the modded game.");
}

/// No help page mentions the retired "Edit Prompt JSON" action: not in its
/// title, not in a bullet's body, not in the one lead-in.
pub proof fn law_no_help_page_mentions_edit_prompt_json(page: HelpPage)
    ensures
        !crate::console_text::has_part(page_title(page)@, retired_wording()),
        forall|i: int|
            0 <= i < page_bodies(page).len() ==> !crate::console_text::has_part(
                (#[trigger] page_bodies(page)[i])@,
                retired_wording(),
            ),
        !crate::console_text::has_part(STEP3_AUTOMATIC_LEAD@, retired_wording()),
{
    lemma_no_j_step2_tick();
    lemma_without_j(STEP2_TICK@);
    lemma_no_j_step2_details();
    lemma_without_j(STEP2_DETAILS@);
    lemma_no_j_step2_versions();
    lemma_without_j(STEP2_VERSIONS@);
    lemma_no_j_step2_pills();
    lemma_without_j(STEP2_PILLS@);
    lemma_no_j_step2_game_tabs();
    lemma_without_j(STEP2_GAME_TABS@);
    lemma_no_j_step2_add_mods();
    lemma_without_j(STEP2_ADD_MODS@);
    lemma_no_j_step2_title();
    lemma_without_j(STEP2_TITLE@);
    lemma_no_j_step3_title();
    lemma_without_j(STEP3_TITLE@);
    lemma_no_j_step3_order();
    lemma_without_j(STEP3_ORDER@);
    lemma_no_j_step3_select();
    lemma_without_j(STEP3_SELECT@);
    lemma_no_j_step3_automatic_lead();
    lemma_without_j(STEP3_AUTOMATIC_LEAD@);
    lemma_no_j_step3_prompts();
    lemma_without_j(STEP3_PROMPTS@);
    lemma_no_j_step3_padlock();
    lemma_without_j(STEP3_PADLOCK@);
    lemma_no_j_step3_uncheck();
    lemma_without_j(STEP3_UNCHECK@);
    lemma_no_j_step3_counts();
    lemma_without_j(STEP3_COUNTS@);
    lemma_no_j_step4_title();
    lemma_without_j(STEP4_TITLE@);
    lemma_no_j_step4_final();
    lemma_without_j(STEP4_FINAL@);
    lemma_no_j_step4_tabs();
    lemma_without_j(STEP4_TABS@);
    lemma_no_j_step4_back();
    lemma_without_j(STEP4_BACK@);
    lemma_no_j_step5_title();
    lemma_without_j(STEP5_TITLE@);
    lemma_no_j_step5_start();
    lemma_without_j(STEP5_START@);
    lemma_no_j_step5_questions();
    lemma_without_j(STEP5_QUESTIONS@);
    lemma_no_j_step5_filters();
    lemma_without_j(STEP5_FILTERS@);
    lemma_no_j_step5_cancel();
    lemma_without_j(STEP5_CANCEL@);
    lemma_no_j_step5_finish();
    lemma_without_j(STEP5_FINISH@);
    lemma_no_j_downloading_first();
    lemma_without_j(DOWNLOADING_FIRST@);
    lemma_no_j_downloading_rows();
    lemma_without_j(DOWNLOADING_ROWS@);
    lemma_no_j_downloading_kept();
    lemma_without_j(DOWNLOADING_KEPT@);
    lemma_no_j_downloading_title();
    lemma_without_j(DOWNLOADING_TITLE@);
    lemma_no_j_manual_box();
    lemma_without_j(MANUAL_BOX@);
    lemma_no_j_manual_keeps_going();
    lemma_without_j(MANUAL_KEEPS_GOING@);
    lemma_no_j_manual_continue_without();
    lemma_without_j(MANUAL_CONTINUE_WITHOUT@);
    lemma_no_j_installing_title();
    lemma_without_j(INSTALLING_TITLE@);
    lemma_no_j_installing_order();
    lemma_without_j(INSTALLING_ORDER@);
    lemma_no_j_installing_console();
    lemma_without_j(INSTALLING_CONSOLE@);
    lemma_no_j_installing_questions();
    lemma_without_j(INSTALLING_QUESTIONS@);
    lemma_no_j_installing_cancel();
    lemma_without_j(INSTALLING_CANCEL@);
    lemma_no_j_installing_finish();
    lemma_without_j(INSTALLING_FINISH@);
}

} // verus!
