use gpubench::benchmarks::{BenchmarkResult, TestStatus};
use gpubench::cli::{
    answered, listing, menu_items, resolve_selection, wants_list, Choice,
};
use gpubench::report::{
    can_be_averaged, detail_heading, generate_report, report_row, score_color, status_icon,
    status_label, work_rows, Colour, HealthRating, Mean,
};
use gpubench::score::Score;
use gpubench::GpuInfo;

fn result(score: Score, status: TestStatus) -> BenchmarkResult {
    BenchmarkResult {
        name: "VRAM Capacity".to_string(),
        status,
        score,
        details: "d".to_string(),
        metric_value: "8192/8192 MB".to_string(),
    }
}

fn scored(scores: &[Score]) -> Vec<BenchmarkResult> {
    scores.iter().map(|s| result(*s, TestStatus::Passed)).collect()
}

#[test]
fn reports_average_the_scores() {
    let results = scored(&[Score::points(100), Score { num: 8500, den: 100 }, Score::points(55)]);
    assert!(can_be_averaged(&results));
    let report = generate_report("Card", results);
    assert_eq!(report.gpu_name, "Card");
    assert_eq!(report.overall.num, 24_000);
    assert_eq!(report.overall.den, 300);
    assert_eq!(report.rating, HealthRating::Excellent);
    assert_eq!(report.results.len(), 3);
}

#[test]
fn ratings_follow_the_mean() {
    let rating = |points| generate_report("", scored(&[Score::points(points)])).rating;
    assert_eq!(rating(80), HealthRating::Excellent);
    assert_eq!(rating(79), HealthRating::Good);
    assert_eq!(rating(60), HealthRating::Good);
    assert_eq!(rating(59), HealthRating::Fair);
    assert_eq!(rating(40), HealthRating::Fair);
    assert_eq!(rating(39), HealthRating::Poor);
    let report = generate_report("", Vec::new());
    assert_eq!(report.rating, HealthRating::Poor);
    assert_eq!(report.overall, Mean { num: 0, den: 1 });
}

#[test]
fn means_agree_with_double_precision() {
    let scores = [
        Score { num: 35, den: 3 },
        Score::points(90),
        Score::points(70),
        Score { num: 420, den: 10 },
        Score::points(75),
    ];
    let mean: f64 =
        scores.iter().map(|s| s.num as f64 / s.den as f64).sum::<f64>() / scores.len() as f64;
    let report = generate_report("", scored(&scores));
    assert!((report.overall.num as f64 / report.overall.den as f64 - mean).abs() < 1e-9);
    let (text, _) = score_color(report.overall.num, report.overall.den);
    assert_eq!(text, format!("{:.0}/100", mean));
}

#[test]
fn means_that_cannot_be_computed_are_refused() {
    let huge = Score { num: 1, den: u64::MAX };
    assert!(can_be_averaged(&scored(&[huge])));
    assert!(!can_be_averaged(&scored(&[huge, huge])));
    assert!(!can_be_averaged(&scored(&[huge, huge, huge])));
    assert!(!can_be_averaged(&scored(&[Score { num: 0, den: 0 }])));
    assert!(!can_be_averaged(&scored(&[Score::points(101)])));
    assert!(can_be_averaged(&Vec::new()));
    let small = Score { num: 8_500, den: 100 };
    let most = Score { num: 1, den: u64::MAX };
    for place in 0..5 {
        let mut scores = [small; 5];
        scores[place] = most;
        let results = scored(&scores);
        assert!(can_be_averaged(&results));
        assert!(generate_report("x", results).overall.is_at_least(68));
    }
}

#[test]
fn ratings_have_labels() {
    let labels: Vec<&str> = [
        HealthRating::Excellent,
        HealthRating::Good,
        HealthRating::Fair,
        HealthRating::Poor,
    ]
    .iter()
    .map(|r| r.label().0)
    .collect();
    assert_eq!(
        labels,
        vec!["★★★★★ EXCELLENT", "★★★★☆ GOOD", "★★★☆☆ FAIR", "★★☆☆☆ POOR"]
    );
    assert_eq!(HealthRating::Fair.label().1, Colour::Yellow);
    assert_eq!(
        HealthRating::Poor.description(),
        "GPU có vấn đề nghiêm trọng! Không nên dùng cho tác vụ nặng hoặc production."
    );
    assert_eq!(
        HealthRating::Excellent.description(),
        "GPU hoạt động xuất sắc! Sẵn sàng cho mọi tác vụ ML/AI và lập trình GPU."
    );
}

#[test]
fn scores_have_colours() {
    let colour = |points| score_color(points, 1).1;
    assert_eq!(colour(80), Colour::BrightGreen);
    assert_eq!(colour(79), Colour::Green);
    assert_eq!(colour(60), Colour::Green);
    assert_eq!(colour(59), Colour::Yellow);
    assert_eq!(colour(39), Colour::Red);
    assert_eq!(score_color(159, 2), ("80/100".to_string(), Colour::Green));
}

#[test]
fn statuses_have_icons_and_labels() {
    let error = TestStatus::Error("lost".to_string());
    assert_eq!(status_icon(&TestStatus::Passed), ("✓", Colour::BrightGreen));
    assert_eq!(status_icon(&TestStatus::Warning), ("⚠", Colour::Yellow));
    assert_eq!(status_icon(&TestStatus::Failed), ("✗", Colour::Red));
    assert_eq!(status_icon(&error), ("✗", Colour::BrightRed));
    assert_eq!(status_label(&TestStatus::Passed).0, "PASSED");
    assert_eq!(status_label(&TestStatus::Warning).0, "WARNING");
    assert_eq!(status_label(&TestStatus::Failed).0, "FAILED");
    assert_eq!(status_label(&error), ("ERROR: lost".to_string(), Colour::BrightRed));
}

#[test]
fn rows_are_filled_to_their_columns() {
    let row = report_row(&result(Score::points(70), TestStatus::Warning));
    let line = format!("{} {} {} {}", row.name, row.status, row.metric, row.score);
    assert_eq!(
        line,
        format!(
            "{:<25} {:<15} {:<18} {}",
            "VRAM Capacity", "WARNING", "8192/8192 MB", "70/100"
        )
    );
    assert_eq!(row.status_colour, Colour::Yellow);
    assert_eq!(row.score_colour, Colour::Green);
    assert_eq!(detail_heading("VRAM Capacity"), "• VRAM Capacity:");
}

#[test]
fn work_asks_for_points() {
    let suits = |points| {
        work_rows(Mean { num: points, den: 1 }).iter().map(|r| r.suitable).collect::<Vec<bool>>()
    };
    assert_eq!(suits(75), vec![true, true, true, true, true]);
    assert_eq!(suits(74), vec![false, true, true, true, true]);
    assert_eq!(suits(55), vec![false, false, true, true, true]);
    assert_eq!(suits(50), vec![false, false, true, true, false]);
    assert_eq!(suits(45), vec![false, false, false, true, false]);
    assert_eq!(suits(44), vec![false, false, false, false, false]);
    let rows = work_rows(Mean { num: 60, den: 1 });
    assert_eq!(rows[0].name, format!("{:<30}", "ML/AI Training"));
    assert_eq!(rows[0].label, "Không khuyến khích");
    assert_eq!(rows[0].colour, Colour::Red);
    assert_eq!(rows[1].name, format!("{:<30}", "Deep Learning Inference"));
    assert_eq!(rows[1].label, "Phù hợp");
    assert_eq!(rows[1].icon, "✓");
}

fn args(list: &[&str]) -> Vec<String> {
    list.iter().map(|s| s.to_string()).collect()
}

#[test]
fn lists_are_asked_for() {
    assert!(wants_list(&args(&["gpubench", "--list"])));
    assert!(wants_list(&args(&["gpubench", "-d", "1", "-l"])));
    assert!(!wants_list(&args(&["gpubench", "list"])));
    assert!(!wants_list(&Vec::new()));
}

#[test]
fn named_devices_are_selected() {
    let choice = |count, list: &[&str]| resolve_selection(count, &args(list)).choice;
    assert_eq!(choice(3, &["gpubench", "--device", "2"]), Choice::Named(2));
    assert_eq!(choice(3, &["gpubench", "-d", "0"]), Choice::Named(0));
    assert_eq!(choice(3, &["gpubench", "-d", "x", "-d", "1"]), Choice::Named(1));
    assert_eq!(choice(3, &["gpubench", "-d", "1", "-d", "2"]), Choice::Named(1));
    assert_eq!(choice(3, &["gpubench", "-d"]), Choice::Ask);
    assert_eq!(choice(3, &["gpubench"]), Choice::Ask);
    assert_eq!(choice(1, &["gpubench"]), Choice::OnlyOne);
}

#[test]
fn devices_that_do_not_exist_are_warned_about() {
    let selection = resolve_selection(2, &args(&["gpubench", "-d", "7", "--device", "2"]));
    assert_eq!(selection.choice, Choice::Ask);
    assert_eq!(
        selection.warnings,
        vec![
            "Chỉ số card '7' không hợp lệ! Có 2 GPU (0..1)".to_string(),
            "Chỉ số card '2' không hợp lệ! Có 2 GPU (0..1)".to_string(),
        ]
    );
    let selection = resolve_selection(1, &args(&["-d", "1", "-d", "0"]));
    assert_eq!(selection.choice, Choice::Named(0));
    assert_eq!(selection.warnings.len(), 1);
}

#[test]
fn no_answer_means_the_first() {
    assert_eq!(answered(None), 0);
    assert_eq!(answered(Some(2)), 2);
}

fn gpu(vram: Option<u64>) -> GpuInfo {
    GpuInfo {
        name: "Radeon".to_string(),
        device_type: "Discrete GPU".to_string(),
        vendor: "AMD".to_string(),
        vendor_id: 0x1002,
        driver_version: "2.0.1".to_string(),
        api_version: "1.3.0".to_string(),
        dedicated_vram_mb: vram,
        device_index: 4,
    }
}

#[test]
fn gpus_are_listed() {
    let lines = listing(&gpu(Some(8176)));
    assert_eq!(lines.index, "[4]");
    assert_eq!(lines.vendor_code, "(0x1002)");
    assert_eq!(lines.memory.unwrap(), "8176 MB (8.0 GB)");
    assert!(listing(&gpu(None)).memory.is_none());
    assert_eq!(menu_items(&vec![gpu(None)]), vec!["Radeon (Discrete GPU)".to_string()]);
    for mb in [0u64, 1, 51, 52, 256, 512, 768, 1000, 1024, 1280, 6144, 24_564, 1_000_001] {
        assert_eq!(
            listing(&gpu(Some(mb))).memory.unwrap(),
            format!("{} MB ({:.1} GB)", mb, mb as f64 / 1024.0)
        );
    }
}
