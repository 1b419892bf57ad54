//! One calendar day's table: a column per forecast record, with rows for the
//! time, the primary and secondary swell, the wind and the air temperature.
use vstd::prelude::*;
use vstd::string::*;
use crate::base::{lemma_models_push, models, plain, Line, Span, SpanModel};
use crate::border::{line_models, Border, RenderError, INTERIOR_VIEWPORT_WIDTH};
use crate::forecast::{
    clock_label, date_label_of, hour_of_day, length_symbol, speed_symbol, temperature_symbol,
    CompassDirection, Forecast, SwellComponent,
};
use crate::text::{
    blank, center_blank, centered, decimal, decimal_text, rounded_whole, signed_decimal,
    signed_decimal_text, spaces, tenths_display, tenths_text,
};

verus! {

/// The width of the legend column.
pub const LEGEND_WIDTH: usize = 11;

/// The width of the gap before each column.
pub const BOUNDARY_WIDTH: usize = 1;

/// The arrow that shows where a swell or wind comes from: each of the 16
/// points joins its nearer neighbours in one of 8 arrows.
pub open spec fn arrow_of(dir: CompassDirection) -> char {
    match dir {
        CompassDirection::N => '↓',
        CompassDirection::NNE | CompassDirection::NE | CompassDirection::ENE => '↙',
        CompassDirection::E => '←',
        CompassDirection::ESE | CompassDirection::SE | CompassDirection::SSE => '↖',
        CompassDirection::S => '↑',
        CompassDirection::SSW | CompassDirection::SW | CompassDirection::WSW => '↗',
        CompassDirection::W => '→',
        CompassDirection::WNW | CompassDirection::NW | CompassDirection::NNW => '↘',
    }
}

/// The arrow of a compass point.
pub fn compass_to_arrow(dir: CompassDirection) -> (r: &'static str)
    ensures
        r@ == seq![arrow_of(dir)],
{
    proof {
        reveal_strlit("↓");
        reveal_strlit("↙");
        reveal_strlit("←");
        reveal_strlit("↖");
        reveal_strlit("↑");
        reveal_strlit("↗");
        reveal_strlit("→");
        reveal_strlit("↘");
    }
    match dir {
        CompassDirection::N => "↓",
        CompassDirection::NNE | CompassDirection::NE | CompassDirection::ENE => "↙",
        CompassDirection::E => "←",
        CompassDirection::ESE | CompassDirection::SE | CompassDirection::SSE => "↖",
        CompassDirection::S => "↑",
        CompassDirection::SSW | CompassDirection::SW | CompassDirection::WSW => "↗",
        CompassDirection::W => "→",
        CompassDirection::WNW | CompassDirection::NW | CompassDirection::NNW => "↘",
    }
}

/// Whether a legend and `n` columns, each after a one-cell gap, fit.
pub open spec fn day_fits(n: nat) -> bool {
    n > 0 && LEGEND_WIDTH + n * BOUNDARY_WIDTH <= INTERIOR_VIEWPORT_WIDTH
}

/// The width of every column: what the legend and gaps leave, shared evenly.
pub open spec fn day_bin_width(n: nat) -> nat {
    ((INTERIOR_VIEWPORT_WIDTH - n * BOUNDARY_WIDTH - LEGEND_WIDTH) / (n as int)) as nat
}

/// What integer division leaves over, placed after the last column.
pub open spec fn day_margin(n: nat) -> nat {
    (INTERIOR_VIEWPORT_WIDTH - (LEGEND_WIDTH + n * BOUNDARY_WIDTH + n * day_bin_width(n))) as nat
}

/// The gaps and cells of a row: before each cell a one-cell gap, each cell's
/// text centered in `bw`.
pub open spec fn day_cells(texts: Seq<Seq<char>>, bw: nat) -> Seq<SpanModel> {
    Seq::new(
        2 * texts.len(),
        |j: int|
            if j % 2 == 0 {
                plain(seq![' '])
            } else {
                plain(centered(texts[j / 2], bw, ' '))
            },
    )
}

/// A row of the table: its legend, a cell per record, the margin.
pub open spec fn day_row(legend: Seq<char>, texts: Seq<Seq<char>>) -> Seq<SpanModel> {
    let n = texts.len();
    seq![plain(centered(legend, LEGEND_WIDTH as nat, ' '))] + day_cells(texts, day_bin_width(n))
        + seq![plain(spaces(day_margin(n)))]
}

/// The blank line between groups of rows.
pub open spec fn skip_line() -> Seq<SpanModel> {
    seq![plain(spaces(INTERIOR_VIEWPORT_WIDTH as nat))]
}

/// The swell trains that the table can show.
#[derive(Clone, Copy, Debug, PartialEq, Eq, Structural)]
pub enum Train {
    Primary,
    Secondary,
}

/// The train of a record that a group of swell rows shows.
pub open spec fn train_of(f: Forecast, train: Train) -> Option<SwellComponent> {
    match train {
        Train::Primary => f.swell.components.primary,
        Train::Secondary => f.swell.components.secondary,
    }
}

/// The legend of a train's middle row.
pub open spec fn train_name(train: Train) -> Seq<char> {
    match train {
        Train::Primary => seq!['P', 'r', 'i', 'm', 'a', 'r', 'y'],
        Train::Secondary => seq!['S', 'e', 'c', 'o', 'n', 'd', 'a', 'r', 'y'],
    }
}

/// Whether any record has the train.
pub open spec fn train_present(fs: Seq<Forecast>, train: Train) -> bool {
    exists|i: int| 0 <= i < fs.len() && (#[trigger] train_of(fs[i], train)) is Some
}

/// An arrow and a direction rounded to whole degrees: `← 272°`.
pub open spec fn direction_text(dir: CompassDirection, hundredths: nat) -> Seq<char> {
    seq![arrow_of(dir), ' '] + decimal(rounded_whole(hundredths)) + seq!['°']
}

pub open spec fn time_text(f: Forecast) -> Seq<char> {
    clock_label(hour_of_day(f.local_timestamp.seconds()))
}

pub open spec fn swell_height_text(f: Forecast, train: Train) -> Seq<char> {
    match train_of(f, train) {
        Some(c) => tenths_display(c.height as nat) + seq![' '] + length_symbol(f.swell.unit),
        None => Seq::empty(),
    }
}

pub open spec fn swell_period_text(f: Forecast, train: Train) -> Seq<char> {
    match train_of(f, train) {
        Some(c) => decimal(c.period as nat) + seq!['s'],
        None => Seq::empty(),
    }
}

pub open spec fn swell_direction_text(f: Forecast, train: Train) -> Seq<char> {
    match train_of(f, train) {
        Some(c) => direction_text(c.compass_direction, c.direction as nat),
        None => Seq::empty(),
    }
}

pub open spec fn wind_speed_text(f: Forecast) -> Seq<char> {
    decimal(f.wind.speed as nat) + seq![' '] + speed_symbol(f.wind.unit)
}

pub open spec fn wind_direction_text(f: Forecast) -> Seq<char> {
    direction_text(f.wind.compass_direction, f.wind.direction as nat)
}

pub open spec fn air_text(f: Forecast) -> Seq<char> {
    signed_decimal(f.condition.temperature as int) + seq![' '] + temperature_symbol(
        f.condition.unit_temperature,
    )
}

/// The views of a sequence of strings.
pub open spec fn string_views(v: Seq<String>) -> Seq<Seq<char>> {
    Seq::new(v.len(), |i: int| v[i]@)
}

pub open spec fn time_texts(fs: Seq<Forecast>) -> Seq<Seq<char>> {
    Seq::new(fs.len(), |i: int| time_text(fs[i]))
}

pub open spec fn air_texts(fs: Seq<Forecast>) -> Seq<Seq<char>> {
    Seq::new(fs.len(), |i: int| air_text(fs[i]))
}

pub open spec fn wind_speed_texts(fs: Seq<Forecast>) -> Seq<Seq<char>> {
    Seq::new(fs.len(), |i: int| wind_speed_text(fs[i]))
}

pub open spec fn wind_direction_texts(fs: Seq<Forecast>) -> Seq<Seq<char>> {
    Seq::new(fs.len(), |i: int| wind_direction_text(fs[i]))
}

pub open spec fn swell_height_texts(fs: Seq<Forecast>, train: Train) -> Seq<Seq<char>> {
    Seq::new(fs.len(), |i: int| swell_height_text(fs[i], train))
}

pub open spec fn swell_period_texts(fs: Seq<Forecast>, train: Train) -> Seq<Seq<char>> {
    Seq::new(fs.len(), |i: int| swell_period_text(fs[i], train))
}

pub open spec fn swell_direction_texts(fs: Seq<Forecast>, train: Train) -> Seq<Seq<char>> {
    Seq::new(fs.len(), |i: int| swell_direction_text(fs[i], train))
}

/// The time row.
pub open spec fn time_rows(fs: Seq<Forecast>) -> Seq<Seq<SpanModel>> {
    seq![day_row(seq!['T', 'i', 'm', 'e'], time_texts(fs))]
}

/// The three rows of a train: height, period, arrow and direction; blank in
/// the columns of records that lack it.
pub open spec fn train_rows(fs: Seq<Forecast>, train: Train) -> Seq<Seq<SpanModel>> {
    seq![
        day_row(Seq::empty(), swell_height_texts(fs, train)),
        day_row(train_name(train), swell_period_texts(fs, train)),
        day_row(seq!['S', 'w', 'e', 'l', 'l'], swell_direction_texts(fs, train)),
    ]
}

/// The three rows of a train, or none when no record has it.
pub open spec fn swell_rows(fs: Seq<Forecast>, train: Train) -> Seq<Seq<SpanModel>> {
    if train_present(fs, train) {
        train_rows(fs, train)
    } else {
        Seq::empty()
    }
}

/// The two wind rows.
pub open spec fn wind_rows(fs: Seq<Forecast>) -> Seq<Seq<SpanModel>> {
    seq![
        day_row(seq![' '], wind_speed_texts(fs)),
        day_row(seq![' ', 'W', 'i', 'n', 'd'], wind_direction_texts(fs)),
    ]
}

/// The air temperature row.
pub open spec fn weather_rows(fs: Seq<Forecast>) -> Seq<Seq<SpanModel>> {
    seq![day_row(seq!['A', 'i', 'r'], air_texts(fs))]
}

/// The table's interior: time; primary swell; secondary swell, when present;
/// wind; air; with blank lines between the groups.
#[verifier::opaque]
pub open spec fn day_lines(fs: Seq<Forecast>) -> Seq<Seq<SpanModel>> {
    let secondary = if train_present(fs, Train::Secondary) {
        swell_rows(fs, Train::Secondary) + seq![skip_line()]
    } else {
        Seq::empty()
    };
    time_rows(fs) + seq![skip_line()] + swell_rows(fs, Train::Primary) + seq![skip_line()]
        + secondary + wind_rows(fs) + seq![skip_line()] + weather_rows(fs)
}

/// The table's title: the day of its first record.
pub open spec fn day_title(fs: Seq<Forecast>) -> Seq<char> {
    date_label_of(fs[0].local_timestamp.seconds())
}

/// The detail table of one day's forecast records.
pub struct Day<'a> {
    pub forecast: &'a [Forecast],
    pub bin_width: usize,
    pub right_margin: usize,
}

impl<'a> Day<'a> {
    /// The column sizes follow from the number of records, and they fit.
    pub open spec fn wf(&self) -> bool {
        let n = self.forecast@.len();
        &&& day_fits(n)
        &&& self.bin_width == day_bin_width(n)
        &&& self.right_margin == day_margin(n)
    }

    /// The table of `forecast`. Fails with `EmptyInput` when there are no
    /// records, and with `InvariantViolation` when the legend and a gap per
    /// record do not fit in the interior width.
    pub fn new(forecast: &'a [Forecast]) -> (r: Result<Day<'a>, RenderError>)
        ensures
            r is Ok <==> day_fits(forecast@.len()),
            match r {
                Ok(d) => d.forecast@ == forecast@ && d.wf(),
                Err(e) => if forecast@.len() == 0 {
                    e == RenderError::EmptyInput
                } else {
                    e == RenderError::InvariantViolation
                },
            },
    {
        let num_forecasts = forecast.len();
        if num_forecasts == 0 {
            return Err(RenderError::EmptyInput);
        }
        // A gap between each two columns, and between the legend and the first.
        let num_boundaries = num_forecasts;
        if num_boundaries > INTERIOR_VIEWPORT_WIDTH - LEGEND_WIDTH {
            return Err(RenderError::InvariantViolation);
        }
        let bin_width = (INTERIOR_VIEWPORT_WIDTH - num_boundaries * BOUNDARY_WIDTH - LEGEND_WIDTH)
            / num_forecasts;
        proof {
            let q = bin_width as int;
            let n = num_forecasts as int;
            let room = (INTERIOR_VIEWPORT_WIDTH - num_boundaries - LEGEND_WIDTH) as int;
            assert(q * n <= room) by (nonlinear_arith)
                requires
                    q == room / n,
                    n > 0,
                    room >= 0,
            ;
            assert(n * q <= room);
        }
        let used_space = LEGEND_WIDTH + num_boundaries * BOUNDARY_WIDTH + num_forecasts
            * bin_width;
        let right_margin = INTERIOR_VIEWPORT_WIDTH - used_space;
        Ok(Day { forecast, bin_width, right_margin })
    }


    /// A row from its legend and one text per record.
    #[verifier::loop_isolation(false)]
    fn row(&self, legend: &str, texts: Vec<String>) -> (r: Line)
        requires
            self.wf(),
            texts@.len() == self.forecast@.len(),
        ensures
            models(r@) == day_row(legend@, string_views(texts@)),
    {
        let ghost views = string_views(texts@);
        let ghost n = texts@.len();
        let mut line: Vec<Span> = Vec::new();
        line.push(Span::text(center_blank(legend, LEGEND_WIDTH)));
        let ghost head = models(line@);
        let mut i: usize = 0;
        while i < texts.len()
            invariant
                i <= n,
                models(line@) == head + day_cells(views, self.bin_width as nat).take(2 * i),
            decreases n - i,
        {
            let ghost before = line@;
            let gap = self.boundary();
            line.push(gap);
            let ghost mid = line@;
            let cell = Span::text(center_blank(texts[i].as_str(), self.bin_width));
            line.push(cell);
            proof {
                lemma_models_push(before, gap);
                lemma_models_push(mid, cell);
                reveal_strlit(" ");
                assert(day_cells(views, self.bin_width as nat).take(2 * i + 2) =~= day_cells(
                    views,
                    self.bin_width as nat,
                ).take(2 * i).push(gap.model()).push(cell.model()));
            }
            i = i + 1;
        }
        let ghost before = line@;
        let margin = Span::text(blank(self.right_margin));
        line.push(margin);
        proof {
            lemma_models_push(before, margin);
            assert(day_cells(views, self.bin_width as nat).take((2 * n) as int) =~= day_cells(
                views,
                self.bin_width as nat,
            ));
            assert(models(line@) =~= day_row(legend@, views));
        }
        line
    }

    /// The gap before a column.
    fn boundary(&self) -> (r: Span)
        ensures
            r.model() == plain(seq![' ']),
    {
        proof {
            reveal_strlit("");
        }
        let gap = center_blank("", BOUNDARY_WIDTH);
        assert(gap@ =~= seq![' ']);
        Span::text(gap)
    }

    /// The time row: each record's hour on a 12-hour clock.
    #[verifier::loop_isolation(false)]
    fn time(&self) -> (r: Vec<Line>)
        requires
            self.wf(),
        ensures
            line_models(r@) == time_rows(self.forecast@),
    {
        let ghost fs = self.forecast@;
        let mut texts: Vec<String> = Vec::new();
        let mut i: usize = 0;
        while i < self.forecast.len()
            invariant
                i <= fs.len(),
                string_views(texts@) == time_texts(fs).take(i as int),
            decreases fs.len() - i,
        {
            let ghost before = texts@;
            let label = self.forecast[i].local_timestamp.clock_label();
            texts.push(label);
            i = i + 1;
            assert(string_views(texts@) =~= time_texts(fs).take(i as int));
        }
        proof {
            reveal_strlit("Time");
            assert("Time"@ =~= seq!['T', 'i', 'm', 'e']);
            assert(time_texts(fs).take(fs.len() as int) =~= time_texts(fs));
        }
        let row = self.row("Time", texts);
        let ghost rm = models(row@);
        let mut rows: Vec<Line> = Vec::new();
        rows.push(row);
        assert(line_models(rows@) =~= seq![rm]);
        assert(line_models(rows@) =~= time_rows(fs));
        rows
    }

    /// The air temperature row.
    #[verifier::loop_isolation(false)]
    fn weather(&self) -> (r: Vec<Line>)
        requires
            self.wf(),
        ensures
            line_models(r@) == weather_rows(self.forecast@),
    {
        let ghost fs = self.forecast@;
        let mut texts: Vec<String> = Vec::new();
        let mut i: usize = 0;
        while i < self.forecast.len()
            invariant
                i <= fs.len(),
                string_views(texts@) == air_texts(fs).take(i as int),
            decreases fs.len() - i,
        {
            let fc = &self.forecast[i];
            let mut text = signed_decimal_text(fc.condition.temperature as i64);
            text.append(" ");
            text.append(fc.condition.unit_temperature.as_str());
            proof {
                reveal_strlit(" ");
            }
            assert(text@ =~= air_text(fs[i as int]));
            texts.push(text);
            i = i + 1;
            assert(string_views(texts@) =~= air_texts(fs).take(i as int));
        }
        proof {
            reveal_strlit("Air");
            assert("Air"@ =~= seq!['A', 'i', 'r']);
            assert(air_texts(fs).take(fs.len() as int) =~= air_texts(fs));
        }
        let row = self.row("Air", texts);
        let ghost rm = models(row@);
        let mut rows: Vec<Line> = Vec::new();
        rows.push(row);
        assert(line_models(rows@) =~= seq![rm]);
        assert(line_models(rows@) =~= weather_rows(fs));
        rows
    }

    /// The two wind rows: speed, then arrow and direction.
    #[verifier::loop_isolation(false)]
    fn wind(&self) -> (r: Vec<Line>)
        requires
            self.wf(),
        ensures
            line_models(r@) == wind_rows(self.forecast@),
    {
        let ghost fs = self.forecast@;
        let mut speeds: Vec<String> = Vec::new();
        let mut dirs: Vec<String> = Vec::new();
        let mut i: usize = 0;
        while i < self.forecast.len()
            invariant
                i <= fs.len(),
                string_views(speeds@) == wind_speed_texts(fs).take(i as int),
                string_views(dirs@) == wind_direction_texts(fs).take(i as int),
            decreases fs.len() - i,
        {
            let fc = &self.forecast[i];
            let mut speed = decimal_text(fc.wind.speed as u64);
            speed.append(" ");
            speed.append(fc.wind.unit.as_str());
            proof {
                reveal_strlit(" ");
            }
            assert(speed@ =~= wind_speed_text(fs[i as int]));
            speeds.push(speed);
            dirs.push(direction(fc.wind.compass_direction, fc.wind.direction));
            i = i + 1;
            assert(string_views(speeds@) =~= wind_speed_texts(fs).take(i as int));
            assert(string_views(dirs@) =~= wind_direction_texts(fs).take(i as int));
        }
        proof {
            reveal_strlit(" ");
            reveal_strlit(" Wind");
            assert(" "@ =~= seq![' ']);
            assert(" Wind"@ =~= seq![' ', 'W', 'i', 'n', 'd']);
            assert(wind_speed_texts(fs).take(fs.len() as int) =~= wind_speed_texts(fs));
            assert(wind_direction_texts(fs).take(fs.len() as int) =~= wind_direction_texts(fs));
        }
        let speed_row = self.row(" ", speeds);
        let dir_row = self.row(" Wind", dirs);
        let ghost m1 = models(speed_row@);
        let ghost m2 = models(dir_row@);
        let mut rows: Vec<Line> = Vec::new();
        rows.push(speed_row);
        rows.push(dir_row);
        assert(line_models(rows@) =~= seq![m1, m2]);
        assert(line_models(rows@) =~= wind_rows(fs));
        rows
    }

    /// The three rows of a swell train (height, period, arrow and direction),
    /// blank in the columns of records that lack it.
    #[verifier::loop_isolation(false)]
    fn swell(&self, train: Train) -> (r: Vec<Line>)
        requires
            self.wf(),
        ensures
            line_models(r@) == train_rows(self.forecast@, train),
    {
        let ghost fs = self.forecast@;
        let mut heights: Vec<String> = Vec::new();
        let mut periods: Vec<String> = Vec::new();
        let mut dirs: Vec<String> = Vec::new();
        let mut i: usize = 0;
        while i < self.forecast.len()
            invariant
                i <= fs.len(),
                string_views(heights@) == swell_height_texts(fs, train).take(i as int),
                string_views(periods@) == swell_period_texts(fs, train).take(i as int),
                string_views(dirs@) == swell_direction_texts(fs, train).take(i as int),
            decreases fs.len() - i,
        {
            let fc = &self.forecast[i];
            let component = match train {
                Train::Primary => fc.swell.components.primary,
                Train::Secondary => fc.swell.components.secondary,
            };
            assert(component == train_of(fs[i as int], train));
            match component {
                Some(c) => {
                    let mut height = tenths_text(c.height);
                    height.append(" ");
                    height.append(fc.swell.unit.as_str());
                    let mut period = decimal_text(c.period as u64);
                    period.append("s");
                    proof {
                        reveal_strlit(" ");
                        reveal_strlit("s");
                    }
                    assert(height@ =~= swell_height_text(fs[i as int], train));
                    assert(period@ =~= swell_period_text(fs[i as int], train));
                    heights.push(height);
                    periods.push(period);
                    dirs.push(direction(c.compass_direction, c.direction));
                },
                None => {
                    proof {
                        reveal_strlit("");
                        assert(""@ =~= Seq::<char>::empty());
                    }
                    heights.push(String::from_str(""));
                    periods.push(String::from_str(""));
                    dirs.push(String::from_str(""));
                },
            }
            i = i + 1;
            assert(string_views(heights@) =~= swell_height_texts(fs, train).take(i as int));
            assert(string_views(periods@) =~= swell_period_texts(fs, train).take(i as int));
            assert(string_views(dirs@) =~= swell_direction_texts(fs, train).take(i as int));
        }
        proof {
            reveal_strlit("");
            reveal_strlit("Primary");
            reveal_strlit("Secondary");
            reveal_strlit("Swell");
        }
        let name = match train {
            Train::Primary => "Primary",
            Train::Secondary => "Secondary",
        };
        proof {
            assert(""@ =~= Seq::<char>::empty());
            assert("Swell"@ =~= seq!['S', 'w', 'e', 'l', 'l']);
            assert(name@ =~= train_name(train));
            assert(swell_height_texts(fs, train).take(fs.len() as int) =~= swell_height_texts(fs, train));
            assert(swell_period_texts(fs, train).take(fs.len() as int) =~= swell_period_texts(fs, train));
            assert(swell_direction_texts(fs, train).take(fs.len() as int) =~= swell_direction_texts(fs, train));
        }
        let height_row = self.row("", heights);
        let period_row = self.row(name, periods);
        let dir_row = self.row("Swell", dirs);
        let ghost m1 = models(height_row@);
        let ghost m2 = models(period_row@);
        let ghost m3 = models(dir_row@);
        let mut rows: Vec<Line> = Vec::new();
        rows.push(height_row);
        rows.push(period_row);
        rows.push(dir_row);
        assert(line_models(rows@) =~= seq![m1, m2, m3]);
        assert(line_models(rows@) =~= train_rows(fs, train));
        rows
    }

    /// Whether any record has the given swell train.
    fn is_present(&self, train: Train) -> (r: bool)
        ensures
            r == train_present(self.forecast@, train),
    {
        let mut i: usize = 0;
        while i < self.forecast.len()
            invariant
                i <= self.forecast@.len(),
                forall|j: int| 0 <= j < i ==> (#[trigger] train_of(self.forecast@[j], train)) is None,
            decreases self.forecast@.len() - i,
        {
            let component = match train {
                Train::Primary => self.forecast[i].swell.components.primary,
                Train::Secondary => self.forecast[i].swell.components.secondary,
            };
            if component.is_some() {
                assert(train_of(self.forecast@[i as int], train) is Some);
                return true;
            }
            i = i + 1;
        }
        false
    }

    /// Whether any record has a primary swell.
    pub fn is_primary_present(&self) -> (r: bool)
        ensures
            r == train_present(self.forecast@, Train::Primary),
    {
        self.is_present(Train::Primary)
    }

    /// Whether any record has a secondary swell.
    pub fn is_secondary_present(&self) -> (r: bool)
        ensures
            r == train_present(self.forecast@, Train::Secondary),
    {
        self.is_present(Train::Secondary)
    }

    /// The primary swell rows, or none.
    fn primary_swell(&self) -> (r: Vec<Line>)
        requires
            self.wf(),
        ensures
            line_models(r@) == swell_rows(self.forecast@, Train::Primary),
    {
        if self.is_primary_present() {
            self.swell(Train::Primary)
        } else {
            let none: Vec<Line> = Vec::new();
            assert(line_models(none@) =~= swell_rows(self.forecast@, Train::Primary));
            none
        }
    }

    /// The secondary swell rows, or none.
    fn secondary_swell(&self) -> (r: Vec<Line>)
        requires
            self.wf(),
        ensures
            line_models(r@) == swell_rows(self.forecast@, Train::Secondary),
    {
        if self.is_secondary_present() {
            self.swell(Train::Secondary)
        } else {
            let none: Vec<Line> = Vec::new();
            assert(line_models(none@) =~= swell_rows(self.forecast@, Train::Secondary));
            none
        }
    }


}

/// An arrow and a direction in hundredths of a degree, rounded to whole degrees.
fn direction(dir: CompassDirection, hundredths: u32) -> (r: String)
    ensures
        r@ == direction_text(dir, hundredths as nat),
{
    let mut r = String::from_str(compass_to_arrow(dir));
    r.append(" ");
    let degrees = decimal_text((hundredths as u64 + 50) / 100);
    r.append(degrees.as_str());
    r.append("°");
    proof {
        reveal_strlit(" ");
        reveal_strlit("°");
    }
    assert(r@ =~= direction_text(dir, hundredths as nat));
    r
}

/// Moves the lines of `more` to the end of `lines`.
fn append_lines(lines: &mut Vec<Line>, more: &mut Vec<Line>)
    ensures
        line_models(final(lines)@) == line_models(old(lines)@) + line_models(old(more)@),
{
    let ghost a = lines@;
    let ghost b = more@;
    lines.append(more);
    assert(line_models(a + b) =~= line_models(a) + line_models(b));
}

/// Adds a blank line.
fn push_skip_line(lines: &mut Vec<Line>)
    ensures
        line_models(final(lines)@) == line_models(old(lines)@).push(skip_line()),
{
    proof {
        reveal_strlit("");
    }
    let ghost a = lines@;
    let mut skip: Line = Vec::new();
    let ghost e = skip@;
    let text = center_blank("", INTERIOR_VIEWPORT_WIDTH);
    assert(text@ =~= spaces(INTERIOR_VIEWPORT_WIDTH as nat));
    let blank_line = Span::text(text);
    skip.push(blank_line);
    proof {
        lemma_models_push(e, blank_line);
        assert(models(skip@) =~= skip_line());
    }
    lines.push(skip);
    assert(line_models(lines@) =~= line_models(a).push(skip_line()));
}

impl<'a> Border for Day<'a> {
    open spec fn ready(&self) -> bool {
        self.wf()
    }

    open spec fn title_text(&self) -> Seq<char> {
        day_title(self.forecast@)
    }

    open spec fn inner_lines(&self) -> Seq<Seq<SpanModel>> {
        day_lines(self.forecast@)
    }

    /// The title: the day of the first record.
    fn title(&self) -> (r: String) {
        self.forecast[0].local_timestamp.date_label()
    }

    /// The table's interior lines.
    fn draw_inner(&self) -> (r: Vec<Line>) {
        let ghost fs = self.forecast@;
        let mut lines: Vec<Line> = Vec::new();
        let mut time = self.time();
        append_lines(&mut lines, &mut time);
        push_skip_line(&mut lines);
        let mut primary = self.primary_swell();
        append_lines(&mut lines, &mut primary);
        push_skip_line(&mut lines);
        let ghost before_secondary = line_models(lines@);
        if self.is_secondary_present() {
            let mut secondary = self.secondary_swell();
            append_lines(&mut lines, &mut secondary);
            push_skip_line(&mut lines);
        }
        let ghost secondary = if train_present(fs, Train::Secondary) {
            swell_rows(fs, Train::Secondary) + seq![skip_line()]
        } else {
            Seq::empty()
        };
        assert(line_models(lines@) =~= before_secondary + secondary);
        let mut wind = self.wind();
        append_lines(&mut lines, &mut wind);
        push_skip_line(&mut lines);
        let mut weather = self.weather();
        append_lines(&mut lines, &mut weather);
        reveal(day_lines);
        assert(line_models(lines@) =~= day_lines(fs));
        lines
    }
}

} // verus!
