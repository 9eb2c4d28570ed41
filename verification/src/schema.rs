//! The tables and indexes every database starts from, in the order in
//! which they are created.
use vstd::prelude::*;

verus! {
/// Candles, their sync records and the other market data tables.
pub const MARKET_SCHEMA: [&'static str; 23] = [
    r#"
    CREATE TABLE IF NOT EXISTS candles (
      id INTEGER PRIMARY KEY AUTOINCREMENT,
      inst_id TEXT NOT NULL,
      inst_type TEXT NOT NULL DEFAULT 'SPOT',
      timeframe TEXT NOT NULL,
      timestamp INTEGER NOT NULL,
      open REAL NOT NULL,
      high REAL NOT NULL,
      low REAL NOT NULL,
      close REAL NOT NULL,
      volume REAL NOT NULL,
      volume_ccy REAL DEFAULT 0,
      volume_quote REAL,
      created_at TIMESTAMP DEFAULT CURRENT_TIMESTAMP,
      UNIQUE(inst_id, inst_type, timeframe, timestamp)
    )
    "#,
    "CREATE INDEX IF NOT EXISTS idx_candles_query ON candles(inst_id, inst_type, timeframe, timestamp)",
    "CREATE INDEX IF NOT EXISTS idx_candles_scope_time ON candles(inst_id, inst_type, timestamp DESC)",
    "CREATE INDEX IF NOT EXISTS idx_candles_time ON candles(timestamp)",
    r#"
    CREATE TABLE IF NOT EXISTS sync_records (
      id INTEGER PRIMARY KEY AUTOINCREMENT,
      inst_id TEXT NOT NULL,
      inst_type TEXT NOT NULL DEFAULT 'SPOT',
      timeframe TEXT NOT NULL,
      last_sync_time TIMESTAMP,
      oldest_timestamp INTEGER,
      newest_timestamp INTEGER,
      candle_count INTEGER DEFAULT 0,
      history_complete INTEGER NOT NULL DEFAULT 0,
      last_sync_mode TEXT NOT NULL DEFAULT 'window',
      UNIQUE(inst_id, inst_type, timeframe)
    )
    "#,
    r#"
    CREATE TABLE IF NOT EXISTS sync_jobs (
      task_id TEXT PRIMARY KEY,
      inst_id TEXT NOT NULL,
      inst_type TEXT NOT NULL DEFAULT 'SPOT',
      timeframe TEXT NOT NULL,
      source_timeframe TEXT NOT NULL DEFAULT '1m',
      target_timeframes TEXT NOT NULL DEFAULT '[]',
      mode TEXT NOT NULL DEFAULT 'window',
      days INTEGER NOT NULL DEFAULT 30,
      start_ts INTEGER,
      end_ts INTEGER,
      repair_method TEXT NOT NULL DEFAULT '',
      status TEXT NOT NULL DEFAULT 'queued',
      progress INTEGER NOT NULL DEFAULT 0,
      message TEXT NOT NULL DEFAULT '',
      created_at TEXT NOT NULL,
      started_at TEXT,
      updated_at TEXT NOT NULL,
      finished_at TEXT,
      error TEXT NOT NULL DEFAULT '',
      fetched_count INTEGER NOT NULL DEFAULT 0,
      target_fetch_count INTEGER NOT NULL DEFAULT 0,
      saved_count INTEGER NOT NULL DEFAULT 0,
      target_save_count INTEGER NOT NULL DEFAULT 0,
      inserted_count INTEGER NOT NULL DEFAULT 0,
      derived_count INTEGER NOT NULL DEFAULT 0,
      target_derive_count INTEGER NOT NULL DEFAULT 0,
      batches INTEGER NOT NULL DEFAULT 0,
      target_batches INTEGER NOT NULL DEFAULT 0,
      api_calls INTEGER NOT NULL DEFAULT 0,
      candle_count INTEGER NOT NULL DEFAULT 0,
      history_complete INTEGER NOT NULL DEFAULT 0,
      last_sync_mode TEXT NOT NULL DEFAULT 'window',
      last_sync_time TEXT,
      oldest_timestamp INTEGER,
      newest_timestamp INTEGER,
      oldest_time TEXT,
      newest_time TEXT,
      reused_existing INTEGER NOT NULL DEFAULT 0,
      truncated INTEGER NOT NULL DEFAULT 0,
      cancel_requested INTEGER NOT NULL DEFAULT 0
    )
    "#,
    "CREATE INDEX IF NOT EXISTS idx_sync_jobs_status_updated ON sync_jobs(status, updated_at)",
    "CREATE INDEX IF NOT EXISTS idx_sync_jobs_recent ON sync_jobs(updated_at DESC, created_at DESC)",
    "CREATE INDEX IF NOT EXISTS idx_sync_jobs_scope ON sync_jobs(inst_id, inst_type, timeframe, mode, days)",
    "CREATE INDEX IF NOT EXISTS idx_sync_jobs_scope_range ON sync_jobs(inst_id, inst_type, source_timeframe, target_timeframes, mode, days, start_ts, end_ts, repair_method, status)",
    r#"
    CREATE TABLE IF NOT EXISTS price_alerts (
      id TEXT PRIMARY KEY,
      inst_id TEXT NOT NULL,
      symbol TEXT NOT NULL DEFAULT '',
      inst_type TEXT NOT NULL DEFAULT 'SPOT',
      alert_type TEXT NOT NULL DEFAULT 'price',
      direction TEXT NOT NULL DEFAULT 'above',
      target_price REAL,
      change_percent REAL,
      note TEXT NOT NULL DEFAULT '',
      enabled INTEGER NOT NULL DEFAULT 1,
      trigger_once INTEGER NOT NULL DEFAULT 1,
      cooldown_seconds INTEGER NOT NULL DEFAULT 300,
      created_at TEXT NOT NULL,
      updated_at TEXT NOT NULL,
      triggered_at TEXT,
      last_value REAL,
      last_trigger_value REAL,
      last_trigger_ts INTEGER NOT NULL DEFAULT 0
    )
    "#,
    "CREATE INDEX IF NOT EXISTS idx_price_alerts_scope ON price_alerts(inst_id, inst_type, enabled)",
    "CREATE INDEX IF NOT EXISTS idx_price_alerts_updated ON price_alerts(updated_at)",
    r#"
    CREATE TABLE IF NOT EXISTS market_ticker_snapshots (
      id INTEGER PRIMARY KEY AUTOINCREMENT,
      inst_id TEXT NOT NULL,
      inst_type TEXT NOT NULL DEFAULT 'SPOT',
      payload_json TEXT NOT NULL DEFAULT '{}',
      ts INTEGER NOT NULL,
      created_at TEXT NOT NULL
    )
    "#,
    "CREATE INDEX IF NOT EXISTS idx_market_ticker_inst_time ON market_ticker_snapshots(inst_id, ts)",
    "CREATE INDEX IF NOT EXISTS idx_market_ticker_type_time ON market_ticker_snapshots(inst_type, ts)",
    r#"
    CREATE TABLE IF NOT EXISTS okx_funding_rates (
      inst_id TEXT NOT NULL,
      inst_type TEXT NOT NULL DEFAULT 'SWAP',
      funding_time INTEGER NOT NULL,
      funding_rate REAL NOT NULL,
      realized_rate REAL,
      method TEXT NOT NULL DEFAULT '',
      formula_type TEXT NOT NULL DEFAULT '',
      payload_json TEXT NOT NULL DEFAULT '{}',
      fetched_at TEXT NOT NULL DEFAULT '',
      PRIMARY KEY(inst_id, inst_type, funding_time)
    )
    "#,
    r#"
    CREATE TABLE IF NOT EXISTS market_recent_trades (
      id INTEGER PRIMARY KEY AUTOINCREMENT,
      inst_id TEXT NOT NULL,
      inst_type TEXT NOT NULL DEFAULT 'SPOT',
      trade_id TEXT NOT NULL DEFAULT '',
      payload_json TEXT NOT NULL DEFAULT '{}',
      ts INTEGER NOT NULL,
      created_at TEXT NOT NULL,
      UNIQUE(inst_id, inst_type, trade_id)
    )
    "#,
    "CREATE INDEX IF NOT EXISTS idx_market_trades_inst_time ON market_recent_trades(inst_id, ts)",
    "CREATE INDEX IF NOT EXISTS idx_market_trades_type_time ON market_recent_trades(inst_type, ts)",
    "CREATE INDEX IF NOT EXISTS idx_market_trades_scope_recent ON market_recent_trades(inst_id, inst_type, ts DESC)",
    r#"
    CREATE TABLE IF NOT EXISTS inventory_deletion_marks (
      symbol TEXT PRIMARY KEY,
      requested_at TEXT NOT NULL,
      reason TEXT NOT NULL DEFAULT '',
      last_error TEXT NOT NULL DEFAULT ''
    )
    "#,
    "CREATE INDEX IF NOT EXISTS idx_inventory_deletion_marks_requested ON inventory_deletion_marks(requested_at)",
];

/// The trading assistant: sessions, messages, steps, order drafts, level snapshots and patrol runs.
pub const ASSISTANT_SCHEMA: [&'static str; 19] = [
    r#"
    CREATE TABLE IF NOT EXISTS assistant_sessions (
      id TEXT PRIMARY KEY,
      kind TEXT NOT NULL DEFAULT 'chat',
      title TEXT NOT NULL DEFAULT '',
      metadata_json TEXT NOT NULL DEFAULT '{}',
      created_at TEXT NOT NULL,
      updated_at TEXT NOT NULL
    )
    "#,
    "CREATE INDEX IF NOT EXISTS idx_assistant_sessions_kind_updated ON assistant_sessions(kind, updated_at)",
    r#"
    CREATE TABLE IF NOT EXISTS assistant_messages (
      id TEXT PRIMARY KEY,
      session_id TEXT NOT NULL,
      role TEXT NOT NULL,
      content TEXT NOT NULL,
      metadata_json TEXT NOT NULL DEFAULT '{}',
      created_at TEXT NOT NULL
    )
    "#,
    "CREATE INDEX IF NOT EXISTS idx_assistant_messages_session ON assistant_messages(session_id, created_at)",
    r#"
    CREATE TABLE IF NOT EXISTS assistant_steps (
      id TEXT PRIMARY KEY,
      session_id TEXT NOT NULL,
      step_type TEXT NOT NULL,
      title TEXT NOT NULL DEFAULT '',
      input_json TEXT NOT NULL DEFAULT '{}',
      output_json TEXT NOT NULL DEFAULT '{}',
      created_at TEXT NOT NULL
    )
    "#,
    "CREATE INDEX IF NOT EXISTS idx_assistant_steps_session ON assistant_steps(session_id, created_at)",
    r#"
    CREATE TABLE IF NOT EXISTS assistant_order_drafts (
      id TEXT PRIMARY KEY,
      session_id TEXT NOT NULL DEFAULT '',
      inst_id TEXT NOT NULL,
      mode TEXT NOT NULL,
      side TEXT NOT NULL,
      order_type TEXT NOT NULL,
      size TEXT NOT NULL,
      price TEXT NOT NULL DEFAULT '',
      status TEXT NOT NULL DEFAULT 'draft',
      risk_json TEXT NOT NULL DEFAULT '{}',
      plan_json TEXT NOT NULL DEFAULT '{}',
      annotations_json TEXT NOT NULL DEFAULT '[]',
      metadata_json TEXT NOT NULL DEFAULT '{}',
      created_at TEXT NOT NULL,
      updated_at TEXT NOT NULL
    )
    "#,
    "CREATE INDEX IF NOT EXISTS idx_assistant_order_drafts_session ON assistant_order_drafts(session_id)",
    "CREATE INDEX IF NOT EXISTS idx_assistant_order_drafts_recent ON assistant_order_drafts(created_at DESC)",
    "CREATE INDEX IF NOT EXISTS idx_assistant_order_drafts_session_recent ON assistant_order_drafts(session_id, created_at DESC)",
    "CREATE INDEX IF NOT EXISTS idx_assistant_order_drafts_inst ON assistant_order_drafts(inst_id, created_at)",
    r#"
    CREATE TABLE IF NOT EXISTS assistant_level_snapshots (
      id TEXT PRIMARY KEY,
      session_id TEXT NOT NULL DEFAULT '',
      inst_id TEXT NOT NULL,
      mode TEXT NOT NULL DEFAULT 'simulated',
      timeframes_json TEXT NOT NULL DEFAULT '[]',
      supports_json TEXT NOT NULL DEFAULT '[]',
      resistances_json TEXT NOT NULL DEFAULT '[]',
      invalidation_levels_json TEXT NOT NULL DEFAULT '[]',
      chart_annotations_json TEXT NOT NULL DEFAULT '[]',
      summary_json TEXT NOT NULL DEFAULT '{}',
      metadata_json TEXT NOT NULL DEFAULT '{}',
      created_at TEXT NOT NULL
    )
    "#,
    "CREATE INDEX IF NOT EXISTS idx_assistant_level_snapshots_inst ON assistant_level_snapshots(inst_id, created_at)",
    "CREATE INDEX IF NOT EXISTS idx_assistant_level_snapshots_session ON assistant_level_snapshots(session_id)",
    "CREATE INDEX IF NOT EXISTS idx_assistant_level_snapshots_recent ON assistant_level_snapshots(created_at DESC)",
    "CREATE INDEX IF NOT EXISTS idx_assistant_level_snapshots_session_recent ON assistant_level_snapshots(session_id, created_at DESC)",
    r#"
    CREATE TABLE IF NOT EXISTS assistant_patrol_runs (
      id TEXT PRIMARY KEY,
      mode TEXT NOT NULL DEFAULT 'simulated',
      status TEXT NOT NULL,
      summary_json TEXT NOT NULL DEFAULT '{}',
      candidates_json TEXT NOT NULL DEFAULT '[]',
      result_json TEXT NOT NULL DEFAULT '{}',
      event_json TEXT NOT NULL DEFAULT '{}',
      settings_json TEXT NOT NULL DEFAULT '{}',
      started_at TEXT NOT NULL,
      finished_at TEXT
    )
    "#,
    "CREATE INDEX IF NOT EXISTS idx_assistant_patrol_runs_time ON assistant_patrol_runs(started_at)",
    "CREATE INDEX IF NOT EXISTS idx_assistant_patrol_runs_mode ON assistant_patrol_runs(mode, started_at)",
];

/// The trading journal and its tags.
pub const JOURNAL_SCHEMA: [&'static str; 6] = [
    r#"
    CREATE TABLE IF NOT EXISTS journal_entries (
      id INTEGER PRIMARY KEY AUTOINCREMENT,
      entry_id TEXT NOT NULL UNIQUE,
      title TEXT NOT NULL DEFAULT '',
      content TEXT NOT NULL DEFAULT '',
      mode TEXT NOT NULL DEFAULT 'simulated',
      inst_id TEXT DEFAULT '',
      inst_type TEXT NOT NULL DEFAULT 'SPOT',
      trade_ids_json TEXT DEFAULT '[]',
      order_ids_json TEXT DEFAULT '[]',
      tags_json TEXT DEFAULT '[]',
      strategy_id TEXT NOT NULL DEFAULT '',
      strategy_name TEXT NOT NULL DEFAULT '',
      rating INTEGER DEFAULT 0,
      emotion TEXT DEFAULT '',
      screenshots_json TEXT NOT NULL DEFAULT '[]',
      pnl_snapshot REAL DEFAULT 0,
      metadata_json TEXT NOT NULL DEFAULT '{}',
      created_at TIMESTAMP DEFAULT CURRENT_TIMESTAMP,
      updated_at TIMESTAMP DEFAULT CURRENT_TIMESTAMP
    )
    "#,
    "CREATE INDEX IF NOT EXISTS idx_journal_mode_time ON journal_entries(mode, created_at)",
    "CREATE INDEX IF NOT EXISTS idx_journal_inst ON journal_entries(inst_id, created_at)",
    "CREATE INDEX IF NOT EXISTS idx_journal_recent ON journal_entries(created_at DESC)",
    "CREATE INDEX IF NOT EXISTS idx_journal_strategy_time ON journal_entries(strategy_id, created_at DESC)",
    r#"
    CREATE TABLE IF NOT EXISTS journal_tags (
      id INTEGER PRIMARY KEY AUTOINCREMENT,
      tag TEXT NOT NULL UNIQUE,
      color TEXT DEFAULT '',
      usage_count INTEGER DEFAULT 0,
      created_at TIMESTAMP DEFAULT CURRENT_TIMESTAMP
    )
    "#,
];

/// Market scanner runs.
pub const SCANNER_SCHEMA: [&'static str; 4] = [
    r#"
    CREATE TABLE IF NOT EXISTS scanner_profiles (
      id INTEGER PRIMARY KEY AUTOINCREMENT,
      profile_id TEXT NOT NULL UNIQUE,
      name TEXT NOT NULL,
      conditions_json TEXT NOT NULL DEFAULT '[]',
      logic TEXT DEFAULT 'and',
      symbols_json TEXT DEFAULT '[]',
      timeframe TEXT DEFAULT '1H',
      inst_type TEXT DEFAULT 'SPOT',
      enabled INTEGER DEFAULT 1,
      interval_seconds INTEGER DEFAULT 300,
      created_at TIMESTAMP DEFAULT CURRENT_TIMESTAMP,
      updated_at TIMESTAMP DEFAULT CURRENT_TIMESTAMP
    )
    "#,
    r#"
    CREATE TABLE IF NOT EXISTS scanner_results (
      id INTEGER PRIMARY KEY AUTOINCREMENT,
      profile_id TEXT NOT NULL,
      inst_id TEXT NOT NULL,
      inst_type TEXT DEFAULT 'SPOT',
      timeframe TEXT NOT NULL,
      matched_conditions_json TEXT DEFAULT '[]',
      indicator_values_json TEXT DEFAULT '{}',
      price REAL DEFAULT 0,
      scan_time TIMESTAMP DEFAULT CURRENT_TIMESTAMP
    )
    "#,
    "CREATE INDEX IF NOT EXISTS idx_scanner_results_time ON scanner_results(profile_id, scan_time)",
    "CREATE INDEX IF NOT EXISTS idx_scanner_results_recent ON scanner_results(scan_time DESC)",
];

/// Research notes, datasets and their runs.
pub const RESEARCH_SCHEMA: [&'static str; 20] = [
    r#"
    CREATE TABLE IF NOT EXISTS research_collection_sessions (
      session_id TEXT PRIMARY KEY,
      status TEXT NOT NULL,
      payload_json TEXT NOT NULL DEFAULT '{}',
      created_at REAL NOT NULL,
      updated_at REAL NOT NULL,
      started_at REAL,
      ended_at REAL,
      failed_at REAL,
      stop_reason TEXT NOT NULL DEFAULT '',
      last_error_code TEXT NOT NULL DEFAULT '',
      last_error_message TEXT NOT NULL DEFAULT ''
    )
    "#,
    "CREATE INDEX IF NOT EXISTS idx_research_collection_sessions_recent ON research_collection_sessions(updated_at DESC)",
    r#"
    CREATE TABLE IF NOT EXISTS research_second_states (
      session_id TEXT NOT NULL,
      inst_id TEXT NOT NULL,
      second_bucket INTEGER NOT NULL,
      payload_json TEXT NOT NULL DEFAULT '{}',
      created_at REAL NOT NULL,
      PRIMARY KEY(session_id, inst_id, second_bucket)
    )
    "#,
    r#"
    CREATE TABLE IF NOT EXISTS research_census_second_states (
      session_id TEXT NOT NULL,
      inst_id TEXT NOT NULL,
      second_bucket INTEGER NOT NULL,
      payload_json TEXT NOT NULL DEFAULT '{}',
      created_at REAL NOT NULL,
      PRIMARY KEY(session_id, inst_id, second_bucket)
    )
    "#,
    r#"
    CREATE TABLE IF NOT EXISTS research_target_census_15m (
      inst_id TEXT NOT NULL,
      target_bucket INTEGER NOT NULL,
      payload_json TEXT NOT NULL DEFAULT '{}',
      created_at REAL NOT NULL,
      PRIMARY KEY(inst_id, target_bucket)
    )
    "#,
    r#"
    CREATE TABLE IF NOT EXISTS research_artifacts (
      artifact_ref TEXT PRIMARY KEY,
      payload_json TEXT NOT NULL,
      created_at REAL NOT NULL
    )
    "#,
    r#"
    CREATE TABLE IF NOT EXISTS research_boundary_targets_15m (
      inst_id TEXT NOT NULL,
      target_bucket INTEGER NOT NULL,
      label_definition_version TEXT NOT NULL DEFAULT '',
      payload_json TEXT NOT NULL DEFAULT '{}',
      created_at REAL NOT NULL,
      PRIMARY KEY(inst_id, target_bucket, label_definition_version)
    )
    "#,
    r#"
    CREATE TABLE IF NOT EXISTS research_sample_index_15m (
      sample_id TEXT PRIMARY KEY,
      dataset_id TEXT NOT NULL DEFAULT '',
      inst_id TEXT NOT NULL,
      target_bucket INTEGER NOT NULL,
      payload_json TEXT NOT NULL DEFAULT '{}',
      created_at REAL NOT NULL
    )
    "#,
    r#"
    CREATE TABLE IF NOT EXISTS research_dataset_manifests (
      dataset_id TEXT PRIMARY KEY,
      status TEXT NOT NULL DEFAULT 'created',
      manifest_json TEXT NOT NULL DEFAULT '{}',
      created_at REAL NOT NULL,
      updated_at REAL NOT NULL
    )
    "#,
    "CREATE INDEX IF NOT EXISTS idx_research_dataset_manifests_recent ON research_dataset_manifests(updated_at DESC)",
    r#"
    CREATE TABLE IF NOT EXISTS research_training_runs (
      run_id TEXT PRIMARY KEY,
      dataset_id TEXT NOT NULL,
      status TEXT NOT NULL,
      progress_stage TEXT NOT NULL DEFAULT '',
      payload_json TEXT NOT NULL DEFAULT '{}',
      created_at REAL NOT NULL,
      updated_at REAL NOT NULL
    )
    "#,
    "CREATE INDEX IF NOT EXISTS idx_research_training_runs_recent ON research_training_runs(updated_at DESC)",
    "CREATE INDEX IF NOT EXISTS idx_research_training_runs_dataset_recent ON research_training_runs(dataset_id, updated_at DESC)",
    r#"
    CREATE TABLE IF NOT EXISTS feature_bars_1s (
      inst_id TEXT NOT NULL,
      ts INTEGER NOT NULL,
      payload_json TEXT NOT NULL DEFAULT '{}',
      created_at REAL NOT NULL,
      PRIMARY KEY(inst_id, ts)
    )
    "#,
    r#"
    CREATE TABLE IF NOT EXISTS swing_labels (
      inst_id TEXT NOT NULL,
      ts INTEGER NOT NULL,
      payload_json TEXT NOT NULL DEFAULT '{}',
      created_at REAL NOT NULL,
      PRIMARY KEY(inst_id, ts)
    )
    "#,
    r#"
    CREATE TABLE IF NOT EXISTS factor_scores (
      inst_id TEXT NOT NULL,
      factor_name TEXT NOT NULL,
      payload_json TEXT NOT NULL DEFAULT '{}',
      created_at REAL NOT NULL,
      PRIMARY KEY(inst_id, factor_name)
    )
    "#,
    r#"
    CREATE TABLE IF NOT EXISTS research_dataset_splits (
      id INTEGER PRIMARY KEY AUTOINCREMENT,
      dataset_id TEXT NOT NULL,
      split TEXT NOT NULL,
      row_index INTEGER NOT NULL,
      inst_id TEXT NOT NULL,
      ts INTEGER NOT NULL,
      features_json TEXT NOT NULL DEFAULT '{}',
      label_json TEXT NOT NULL DEFAULT '{}',
      created_at REAL NOT NULL
    )
    "#,
    "CREATE INDEX IF NOT EXISTS idx_research_dataset_splits_dataset_split_row ON research_dataset_splits(dataset_id, split, row_index)",
    r#"
    CREATE TABLE IF NOT EXISTS inference_snapshots (
      id INTEGER PRIMARY KEY AUTOINCREMENT,
      inst_id TEXT NOT NULL,
      payload_json TEXT NOT NULL DEFAULT '{}',
      created_at REAL NOT NULL
    )
    "#,
    "CREATE INDEX IF NOT EXISTS idx_inference_snapshots_recent ON inference_snapshots(created_at DESC)",
];

/// Appends a group of statements.
fn append_group<const N: usize>(out: &mut Vec<&'static str>, group: [&'static str; N])
    ensures
        final(out)@ == old(out)@ + group@,
{
    let mut i: usize = 0;
    while i < N
        invariant
            i <= N,
            out@ == old(out)@ + group@.subrange(0, i as int),
        decreases N - i,
    {
        out.push(group[i]);
        i = i + 1;
        assert(out@ =~= old(out)@ + group@.subrange(0, i as int));
    }
    assert(group@.subrange(0, N as int) =~= group@);
}

/// The statements that create the schema, run before the column and index
/// migrations: the market, assistant, journal, scanner and research groups,
/// in that order.
pub fn core_statements() -> (out: Vec<&'static str>)
    ensures
        out@ == MARKET_SCHEMA@ + ASSISTANT_SCHEMA@ + JOURNAL_SCHEMA@ + SCANNER_SCHEMA@ + RESEARCH_SCHEMA@,
{
    let mut out: Vec<&'static str> = Vec::new();
    append_group(&mut out, MARKET_SCHEMA);
    append_group(&mut out, ASSISTANT_SCHEMA);
    append_group(&mut out, JOURNAL_SCHEMA);
    append_group(&mut out, SCANNER_SCHEMA);
    append_group(&mut out, RESEARCH_SCHEMA);
    assert(out@ =~= MARKET_SCHEMA@ + ASSISTANT_SCHEMA@ + JOURNAL_SCHEMA@ + SCANNER_SCHEMA@ + RESEARCH_SCHEMA@);
    out
}

/// The statements that run after the column and index migrations, because
/// they need columns those migrations add. None of these groups has any.
pub fn post_migration_statements() -> (out: Vec<&'static str>)
    ensures
        out@ == Seq::<&'static str>::empty(),
{
    Vec::new()
}

} // verus!
