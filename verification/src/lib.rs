pub mod text; pub mod seqs; pub mod items; pub mod blocks; pub mod merge; pub mod repair; pub mod history; pub mod move_selection; pub mod drag; pub mod state; pub mod lines; pub mod update_report;
pub mod help_copy;
pub mod settings;
pub mod nav;
pub mod uncheck;
pub mod row_selection;
pub mod console_text;
pub mod pipeline;
pub mod game;
pub mod step2;
pub mod step3;
pub mod ui_kit;
pub mod nexus;
pub mod tidy;
pub mod notices;
pub mod palette;
pub mod drag_ops;
pub mod install_progress;
pub mod extract_result;
pub mod worker_events;
pub mod source_targets;
pub mod component_order;
pub mod source_choices;
