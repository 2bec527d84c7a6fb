use mmtc::layout::{fit_area, solve, Direction, Policy, Rect};

fn area(x: u16, y: u16, width: u16, height: u16) -> Rect {
    Rect { x, y, width, height }
}

fn widths(rects: &[Rect]) -> Vec<u16> {
    rects.iter().map(|r| r.width).collect()
}

fn heights(rects: &[Rect]) -> Vec<u16> {
    rects.iter().map(|r| r.height).collect()
}

#[test]
fn solve_fixed_then_min_fills_the_height() {
    let r = solve(area(2, 2, 10, 10), &vec![Policy::Fixed(5), Policy::Min(0)], Direction::Vertical);
    assert_eq!(r, vec![area(2, 2, 10, 5), area(2, 7, 10, 5)]);
}

#[test]
fn solve_ratios_share_the_width() {
    let r = solve(area(0, 0, 9, 2), &vec![Policy::Ratio(1), Policy::Ratio(2)], Direction::Horizontal);
    assert_eq!(r, vec![area(0, 0, 3, 2), area(3, 0, 6, 2)]);
}

#[test]
fn solve_sums_to_the_area() {
    let policies = vec![Policy::Ratio(1), Policy::Max(5), Policy::Min(1), Policy::Ratio(1), Policy::Fixed(3)];
    for len in 1..40u16 {
        let r = solve(area(1, 3, len, 4), &policies, Direction::Horizontal);
        assert_eq!(r.len(), policies.len());
        assert_eq!(widths(&r).iter().sum::<u16>(), len);
        let mut x = 1;
        for rect in &r {
            assert_eq!(rect.x, x);
            assert_eq!(rect.y, 3);
            assert_eq!(rect.height, 4);
            x += rect.width;
        }
        let c = solve(area(1, 3, 4, len), &policies, Direction::Vertical);
        assert_eq!(heights(&c).iter().sum::<u16>(), len);
    }
}

#[test]
fn solve_without_ratio_weight_does_not_divide() {
    let r = solve(area(0, 0, 10, 1), &vec![Policy::Ratio(0), Policy::Fixed(4), Policy::Ratio(0)], Direction::Horizontal);
    assert_eq!(r.len(), 3);
    assert_eq!(widths(&r).iter().sum::<u16>(), 10);
    assert_eq!(widths(&r), vec![0, 10, 0]);
    let only = solve(area(4, 0, 10, 1), &vec![Policy::Ratio(0)], Direction::Horizontal);
    assert_eq!(only, vec![area(4, 0, 0, 1)]);
    let none = solve(area(4, 2, 10, 1), &vec![Policy::Ratio(0), Policy::Ratio(0)], Direction::Vertical);
    assert_eq!(none, vec![area(4, 2, 10, 0), area(4, 2, 10, 0)]);
}

#[test]
fn solve_of_no_policies_is_empty() {
    let r = solve(area(0, 0, 10, 1), &vec![], Direction::Horizontal);
    assert_eq!(r, vec![]);
}

#[test]
fn solve_at_the_edge_of_the_coordinate_space() {
    let r = solve(area(65000, 65000, 535, 535), &vec![Policy::Ratio(1), Policy::Ratio(1)], Direction::Vertical);
    assert_eq!(heights(&r).iter().sum::<u16>(), 535);
    assert_eq!(r[0].y, 65000);
    assert_eq!(r[1].y + r[1].height, 65535);
}

fn proposals(sizes: &[u16]) -> Vec<Rect> {
    sizes.iter().map(|s| area(9, 9, *s, *s)).collect()
}

fn fit(size: Rect, policies: &[Policy], sizes: &[u16]) -> Vec<u16> {
    widths(&fit_area(size, Direction::Horizontal, &policies.to_vec(), &proposals(sizes)))
}

#[test]
fn fit_area_keeps_an_exact_tiling() {
    let chunks = vec![area(0, 0, 3, 2), area(3, 0, 6, 2)];
    let policies = vec![Policy::Fixed(3), Policy::Min(0)];
    assert_eq!(fit_area(area(0, 0, 9, 2), Direction::Horizontal, &policies, &chunks), chunks);
}

#[test]
fn fit_area_clips_and_grows() {
    let fixed = vec![Policy::Fixed(4), Policy::Max(4), Policy::Min(4)];
    let chunks = vec![area(0, 0, 4, 1), area(0, 0, 4, 1), area(0, 0, 4, 1)];
    assert_eq!(
        fit_area(area(5, 1, 10, 1), Direction::Horizontal, &fixed, &chunks),
        vec![area(5, 1, 4, 1), area(9, 1, 4, 1), area(13, 1, 2, 1)]
    );
    assert_eq!(fit(area(0, 0, 10, 1), &fixed, &[8, 8, 8]), vec![8, 2, 0]);
    assert_eq!(fit(area(0, 0, 10, 1), &fixed, &[1, 1, 1]), vec![1, 1, 8]);
    let small = vec![area(0, 0, 1, 1), area(0, 0, 1, 1)];
    assert_eq!(
        fit_area(area(0, 0, 1, 10), Direction::Vertical, &vec![Policy::Min(1), Policy::Min(1)], &small),
        vec![area(0, 0, 1, 1), area(0, 1, 1, 9)]
    );
}

#[test]
fn fit_area_gives_the_ratios_what_the_others_leave() {
    let policies = [Policy::Fixed(6), Policy::Ratio(1), Policy::Ratio(1)];
    assert_eq!(fit(area(0, 0, 26, 1), &policies, &[6, 13, 7]), vec![6, 10, 10]);
    assert_eq!(fit(area(0, 0, 26, 1), &policies, &[6, 0, 0]), vec![6, 10, 10]);
    assert_eq!(fit(area(0, 0, 26, 1), &policies, &[30, 9, 9]), vec![26, 0, 0]);
    assert_eq!(fit(area(0, 0, 26, 1), &policies, &[0, 26, 0]), vec![0, 13, 13]);
    let mixed = [Policy::Ratio(1), Policy::Max(3), Policy::Ratio(3), Policy::Min(1)];
    assert_eq!(fit(area(0, 0, 12, 1), &mixed, &[5, 3, 5, 1]), vec![2, 3, 6, 1]);
    assert_eq!(fit(area(0, 0, 12, 1), &mixed, &[0, 3, 0, 20]), vec![0, 3, 0, 9]);
}

#[test]
fn fit_area_rounds_by_the_running_total() {
    let thirds = [Policy::Ratio(1), Policy::Ratio(1), Policy::Ratio(1)];
    assert_eq!(fit(area(0, 0, 10, 1), &thirds, &[0, 0, 0]), vec![3, 3, 4]);
    assert_eq!(fit(area(0, 0, 11, 1), &thirds, &[9, 9, 9]), vec![3, 4, 4]);
    assert_eq!(fit(area(0, 0, 2, 1), &thirds, &[1, 1, 1]), vec![0, 1, 1]);
    assert_eq!(fit(area(0, 0, 0, 1), &thirds, &[1, 1, 1]), vec![0, 0, 0]);
    let uneven = [Policy::Ratio(2), Policy::Ratio(1), Policy::Ratio(1)];
    assert_eq!(fit(area(0, 0, 6, 1), &uneven, &[0, 0, 0]), vec![3, 1, 2]);
    assert_eq!(fit(area(0, 0, 5, 1), &uneven, &[0, 0, 0]), vec![2, 1, 2]);
    let heavy = [Policy::Ratio(u32::MAX - 1), Policy::Ratio(1)];
    assert_eq!(fit(area(0, 0, u16::MAX, 1), &heavy, &[0, 0]), vec![u16::MAX - 1, 1]);
}

#[test]
fn fit_area_gives_a_weightless_ratio_no_cells() {
    assert_eq!(fit(area(0, 0, 10, 1), &[Policy::Ratio(0), Policy::Fixed(4), Policy::Ratio(0)], &[3, 4, 3]), vec![0, 10, 0]);
    assert_eq!(fit(area(0, 0, 10, 1), &[Policy::Fixed(4), Policy::Max(2), Policy::Ratio(0)], &[4, 2, 4]), vec![4, 6, 0]);
    assert_eq!(fit(area(0, 0, 10, 1), &[Policy::Ratio(0), Policy::Ratio(5), Policy::Min(1)], &[3, 3, 4]), vec![0, 6, 4]);
    assert_eq!(fit(area(0, 0, 10, 1), &[Policy::Ratio(0), Policy::Ratio(0)], &[5, 5]), vec![0, 0]);
    assert_eq!(fit(area(0, 0, 10, 1), &[], &[]), Vec::<u16>::new());
}

#[test]
fn solve_divides_eight_rows_one_to_three() {
    let r = solve(area(0, 0, 4, 8), &vec![Policy::Ratio(1), Policy::Ratio(3)], Direction::Vertical);
    assert_eq!(r, vec![area(0, 0, 4, 2), area(0, 2, 4, 6)]);
}

#[test]
fn solve_gives_each_ratio_its_share_rounded() {
    let policies = vec![Policy::Ratio(3), Policy::Fixed(5), Policy::Ratio(0), Policy::Ratio(7), Policy::Max(2), Policy::Ratio(1)];
    for len in 0..200u16 {
        let r = solve(area(0, 0, len, 1), &policies, Direction::Horizontal);
        let w = widths(&r);
        assert_eq!(w.iter().sum::<u16>(), len);
        let rest = u64::from(len - w[1] - w[4]);
        assert_eq!(w[2], 0);
        for (i, weight) in [(0usize, 3u64), (3, 7), (5, 1)] {
            let exact = weight * rest;
            let share = u64::from(w[i]);
            assert!(exact / 11 <= share && share <= (exact + 10) / 11, "{:?} in {}", w, len);
        }
        assert_eq!(u64::from(w[0] + w[3] + w[5]), rest);
    }
}

fn ask_tui(size: Rect, policies: &[Policy], axis: Direction) -> Vec<Rect> {
    let denom: u32 = policies.iter().map(|p| if let Policy::Ratio(w) = p { *w } else { 0 }).sum();
    let asked: Vec<tui::layout::Constraint> = policies
        .iter()
        .map(|p| match *p {
            Policy::Fixed(n) => tui::layout::Constraint::Length(n),
            Policy::Max(n) => tui::layout::Constraint::Max(n),
            Policy::Min(n) => tui::layout::Constraint::Min(n),
            Policy::Ratio(w) if denom == 0 => tui::layout::Constraint::Length(w as u16),
            Policy::Ratio(w) => tui::layout::Constraint::Ratio(w, denom),
        })
        .collect();
    let direction = match axis {
        Direction::Horizontal => tui::layout::Direction::Horizontal,
        Direction::Vertical => tui::layout::Direction::Vertical,
    };
    tui::layout::Layout::default()
        .direction(direction)
        .constraints(asked)
        .split(tui::layout::Rect { x: size.x, y: size.y, width: size.width, height: size.height })
        .into_iter()
        .map(|r| Rect { x: r.x, y: r.y, width: r.width, height: r.height })
        .collect()
}

fn is_tiling(size: Rect, rects: &[Rect]) -> bool {
    let mut x = size.x;
    for r in rects {
        if r.x != x || r.y != size.y || r.height != size.height {
            return false;
        }
        x += r.width;
    }
    rects.is_empty() || x == size.x + size.width
}

#[test]
fn solve_keeps_what_the_solver_found_for_regions_without_a_ratio() {
    let lists = vec![
        vec![Policy::Fixed(5), Policy::Min(0)],
        vec![Policy::Max(3), Policy::Min(2), Policy::Fixed(1)],
        vec![Policy::Min(100)],
        vec![Policy::Fixed(2), Policy::Fixed(2), Policy::Max(9)],
    ];
    let mut kept = 0;
    for policies in &lists {
        for width in 0..50u16 {
            let size = area(3, 1, width, 2);
            let found = ask_tui(size, policies, Direction::Horizontal);
            let solved = solve(size, policies, Direction::Horizontal);
            assert!(is_tiling(size, &solved));
            assert_eq!(fit_area(size, Direction::Horizontal, policies, &found), solved);
            if is_tiling(size, &found) {
                assert_eq!(solved, found);
                kept += 1;
            }
        }
    }
    assert!(kept > 0);
}

#[test]
fn solve_fits_what_the_solver_found() {
    let lists = vec![
        vec![Policy::Ratio(1), Policy::Ratio(2)],
        vec![Policy::Fixed(6), Policy::Ratio(1), Policy::Ratio(1)],
        vec![Policy::Max(3), Policy::Ratio(1), Policy::Min(2), Policy::Fixed(1)],
        vec![Policy::Ratio(0), Policy::Ratio(0)],
    ];
    for policies in &lists {
        for width in 0..50u16 {
            let size = area(3, 1, width, 2);
            let found = ask_tui(size, policies, Direction::Horizontal);
            let solved = solve(size, policies, Direction::Horizontal);
            assert_eq!(fit_area(size, Direction::Horizontal, policies, &found), solved);
        }
    }
}

#[test]
fn solve_gives_a_fixed_region_its_cells_when_there_is_room() {
    let r = solve(area(0, 0, 26, 1), &vec![Policy::Fixed(6), Policy::Ratio(1), Policy::Ratio(1)], Direction::Horizontal);
    assert_eq!(widths(&r), vec![6, 10, 10]);
}

#[test]
fn solve_with_extreme_requests_still_tiles() {
    let lists = vec![
        vec![Policy::Fixed(u16::MAX), Policy::Fixed(u16::MAX)],
        vec![Policy::Min(u16::MAX), Policy::Max(0), Policy::Min(u16::MAX)],
        vec![Policy::Ratio(u32::MAX - 1), Policy::Ratio(1)],
        vec![Policy::Ratio(u32::MAX)],
        vec![Policy::Max(0), Policy::Max(0), Policy::Max(0)],
        vec![Policy::Ratio(1), Policy::Fixed(u16::MAX), Policy::Ratio(u32::MAX - 1)],
    ];
    let sizes = vec![
        area(0, 0, u16::MAX, 1),
        area(u16::MAX, 0, 0, 1),
        area(1, 0, u16::MAX - 1, 1),
        area(0, 0, 0, 0),
        area(65534, 65535, 1, 0),
    ];
    for policies in &lists {
        for size in &sizes {
            let r = solve(*size, policies, Direction::Horizontal);
            assert!(is_tiling(*size, &r), "{:?} in {:?} gave {:?}", policies, size, r);
        }
    }
}

#[test]
fn solve_with_many_regions() {
    let policies: Vec<Policy> = (0..120u32)
        .map(|i| match i % 4 {
            0 => Policy::Fixed(1),
            1 => Policy::Ratio(i),
            2 => Policy::Min(2),
            _ => Policy::Max(3),
        })
        .collect();
    for height in [0u16, 1, 50, 119, 120, 121, 500] {
        let size = area(0, 7, 3, height);
        let r = solve(size, &policies, Direction::Vertical);
        assert_eq!(r.len(), 120);
        assert_eq!(heights(&r).iter().map(|h| u32::from(*h)).sum::<u32>(), u32::from(height));
        let mut y = 7;
        for rect in &r {
            assert_eq!((rect.x, rect.y, rect.width), (0, y, 3));
            y += rect.height;
        }
    }
}
