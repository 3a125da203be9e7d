use crate::barcode::Ean13Code;
use crate::config::RenderConfig;
use crate::document::{
    element_views, DocumentView, ElementView, LabelDocument, LabelElement, EAN13_MODULES,
};
use crate::error::LabelError;
use crate::raster::{PackedGrid, PackedRaster};
use vstd::prelude::*;

verus! {

/// How a text block is placed across its cell.
#[derive(Clone, Copy, Debug, PartialEq, Eq, Structural)]
pub enum TextAlign {
    /// In the middle of the cell.
    Centered,
    /// With its right edge `padding` dots left of the cell's right edge.
    Right { padding: u32 },
}

/// A rectangle of the canvas.
#[derive(Clone, Copy, Debug, PartialEq, Eq, Structural)]
pub struct Cell {
    pub left: u32,
    pub top: u32,
    pub width: u32,
    pub height: u32,
}

/// The place of one product on the label: its cell and the rules by which
/// title, text and barcode are stacked in it from the top.
#[derive(Clone, Copy, Debug, PartialEq, Eq, Structural)]
pub struct Slot {
    pub cell: Cell,
    /// Free rows above the first element.
    pub top_margin: u32,
    /// Free rows between title and text.
    pub title_gap: u32,
    /// Free rows between text and barcode.
    pub barcode_gap: u32,
    /// How the text block is placed across the cell.
    pub align: TextAlign,
    /// How far the barcode is moved right of the middle, to keep its
    /// printed digits off the cell's left edge.
    pub barcode_shift: u32,
}

/// The height of a title, or nothing.
pub open spec fn title_height(title: Option<PackedGrid>) -> nat {
    match title {
        Some(t) => t.height,
        None => 0,
    }
}

impl Slot {
    /// Whether the cell lies on a canvas of the given size.
    pub open spec fn within(self, canvas_width: nat, canvas_height: nat) -> bool {
        &&& self.cell.left + self.cell.width <= canvas_width
        &&& self.cell.top + self.cell.height <= canvas_height
    }

    /// The width of the barcode: 95 modules.
    pub open spec fn barcode_width(config: RenderConfig) -> nat {
        95 * (config.narrow as nat)
    }

    /// The left edge of a block of width `width` put in the middle.
    pub open spec fn centered_x(self, width: nat) -> nat {
        (self.cell.left + (self.cell.width - width) / 2) as nat
    }

    /// The top edge of the title.
    pub open spec fn title_y(self) -> nat {
        (self.cell.top + self.top_margin) as nat
    }

    /// The left edge of the text block.
    pub open spec fn text_x(self, block: PackedGrid) -> nat {
        match self.align {
            TextAlign::Centered => self.centered_x(block.width),
            TextAlign::Right { padding } => (self.cell.left + self.cell.width - padding
                - block.width) as nat,
        }
    }

    /// The top edge of the text block: under the top margin, or under the
    /// title and its gap where there is a title.
    pub open spec fn text_y(self, title: Option<PackedGrid>) -> nat {
        match title {
            Some(t) => self.title_y() + t.height + self.title_gap as nat,
            None => self.title_y(),
        }
    }

    /// The left edge of the barcode.
    pub open spec fn barcode_x(self, config: RenderConfig) -> nat {
        self.centered_x(Self::barcode_width(config)) + self.barcode_shift as nat
    }

    /// The top edge of the barcode: under the text block as it was
    /// measured, and the gap.
    pub open spec fn barcode_y(self, title: Option<PackedGrid>, block: PackedGrid) -> nat {
        self.text_y(title) + block.height + self.barcode_gap as nat
    }

    /// Whether title, text and barcode, stacked from the top of the cell,
    /// all lie in the cell.
    pub open spec fn fits(
        self,
        title: Option<PackedGrid>,
        block: PackedGrid,
        config: RenderConfig,
    ) -> bool {
        &&& title matches Some(t) ==> t.width <= self.cell.width
        &&& match self.align {
            TextAlign::Centered => block.width <= self.cell.width,
            TextAlign::Right { padding } => block.width + padding <= self.cell.width,
        }
        &&& Self::barcode_width(config) <= self.cell.width
        &&& self.barcode_x(config) + Self::barcode_width(config) <= self.cell.left
            + self.cell.width
        &&& self.barcode_y(title, block) + config.barcode_height <= self.cell.top
            + self.cell.height
    }

    /// The title, where there is one, as it is placed in the cell.
    pub open spec fn title_element(self, title: PackedGrid) -> ElementView {
        ElementView::TextBlock { raster: title, x: self.centered_x(title.width), y: self.title_y() }
    }

    /// The text block as it is placed in the cell.
    pub open spec fn text_element(
        self,
        title: Option<PackedGrid>,
        block: PackedGrid,
    ) -> ElementView {
        ElementView::TextBlock { raster: block, x: self.text_x(block), y: self.text_y(title) }
    }

    /// The barcode as it is placed in the cell.
    pub open spec fn barcode_element(
        self,
        title: Option<PackedGrid>,
        block: PackedGrid,
        code: Seq<char>,
        config: RenderConfig,
    ) -> ElementView {
        ElementView::Barcode {
            x: self.barcode_x(config),
            y: self.barcode_y(title, block),
            rotation: 0,
            narrow: config.narrow as nat,
            wide: config.wide as nat,
            height: config.barcode_height as nat,
            hri_visible: config.hri_visible,
            digits: code,
        }
    }

    /// The elements of the cell in the order in which they are emitted:
    /// title, text, barcode.
    pub open spec fn elements(
        self,
        title: Option<PackedGrid>,
        block: PackedGrid,
        code: Seq<char>,
        config: RenderConfig,
    ) -> Seq<ElementView> {
        match title {
            Some(t) => seq![
                self.title_element(t),
                self.text_element(title, block),
                self.barcode_element(title, block, code, config),
            ],
            None => seq![
                self.text_element(title, block),
                self.barcode_element(title, block, code, config),
            ],
        }
    }

    /// Whether an element lies in the cell.
    pub open spec fn holds(self, element: ElementView) -> bool {
        &&& self.cell.left <= element.left()
        &&& element.right() <= self.cell.left + self.cell.width
        &&& self.cell.top <= element.top()
        &&& element.bottom() <= self.cell.top + self.cell.height
    }

    /// Whether two cells share no pixel.
    pub open spec fn apart_from(self, other: Slot) -> bool {
        ||| self.cell.left + self.cell.width <= other.cell.left
        ||| other.cell.left + other.cell.width <= self.cell.left
        ||| self.cell.top + self.cell.height <= other.cell.top
        ||| other.cell.top + other.cell.height <= self.cell.top
    }
}

/// The barcode starts below the last row of the text block, whatever the
/// text's measured height, as soon as the gap between them is not zero.
pub proof fn lemma_barcode_below_text(slot: Slot, title: Option<PackedGrid>, block: PackedGrid)
    requires
        slot.barcode_gap > 0,
    ensures
        slot.barcode_y(title, block) > slot.text_y(title) + block.height,
{
}

/// Where the stack fits its cell, every element lies in the cell, and the
/// elements lie one below the other without sharing a row.
pub proof fn lemma_stack_in_cell(
    slot: Slot,
    title: Option<PackedGrid>,
    block: PackedGrid,
    code: Seq<char>,
    config: RenderConfig,
)
    requires
        slot.fits(title, block, config),
    ensures
        forall|i: int|
            0 <= i < slot.elements(title, block, code, config).len() ==> slot.holds(
                #[trigger] slot.elements(title, block, code, config)[i],
            ),
        forall|i: int, j: int|
            0 <= i < j < slot.elements(title, block, code, config).len() ==> (
            #[trigger] slot.elements(title, block, code, config)[i]).bottom() <= (
            #[trigger] slot.elements(title, block, code, config)[j]).top(),
        title is Some ==> slot.text_y(title) >= slot.title_y() + title_height(title),
{
}

/// The two cells of the stacked pair: the upper and the lower half of the
/// canvas. The text is set against the right edge, the barcode in the
/// middle.
pub open spec fn stacked_pair_slots(canvas_width: u32, canvas_height: u32) -> Seq<Slot> {
    let band: u32 = (canvas_height / 2) as u32;
    seq![
        Slot {
            cell: Cell { left: 0, top: 0, width: canvas_width, height: band },
            top_margin: 10,
            title_gap: 12,
            barcode_gap: 8,
            align: TextAlign::Right { padding: 10 },
            barcode_shift: 0,
        },
        Slot {
            cell: Cell { left: 0, top: band, width: canvas_width, height: band },
            top_margin: 10,
            title_gap: 12,
            barcode_gap: 8,
            align: TextAlign::Right { padding: 10 },
            barcode_shift: 0,
        },
    ]
}

/// The side of one quadrant of the grid, for a canvas side of `side`: half
/// of it less half of the gap of four dots. Nothing on a canvas too small
/// to be divided.
pub open spec fn quadrant_side(side: u32) -> u32 {
    if side / 2 >= 2 {
        (side / 2 - 2) as u32
    } else {
        0
    }
}

/// Where the second quadrant starts along a canvas side of `side`.
pub open spec fn quadrant_start(side: u32) -> u32 {
    if side / 2 >= 2 {
        (side / 2 + 2) as u32
    } else {
        0
    }
}

/// One quadrant of the grid. Everything is set in the middle; in the left
/// column the barcode stands four dots right of it.
pub open spec fn grid_slot(left: u32, top: u32, width: u32, height: u32, shift: u32) -> Slot {
    Slot {
        cell: Cell { left, top, width, height },
        top_margin: 4,
        title_gap: 6,
        barcode_gap: 3,
        align: TextAlign::Centered,
        barcode_shift: shift,
    }
}

/// The four cells of the grid, row by row: four equal quadrants with a gap
/// of four dots between them.
pub open spec fn grid_slots(canvas_width: u32, canvas_height: u32) -> Seq<Slot> {
    let w = quadrant_side(canvas_width);
    let h = quadrant_side(canvas_height);
    let x = quadrant_start(canvas_width);
    let y = quadrant_start(canvas_height);
    seq![
        grid_slot(0, 0, w, h, 4),
        grid_slot(x, 0, w, h, 0),
        grid_slot(0, y, w, h, 4),
        grid_slot(x, y, w, h, 0),
    ]
}

/// The cells for a number of products: the stacked pair for two, the grid
/// for four, none for any other number.
pub open spec fn slots_for(count: nat, canvas_width: u32, canvas_height: u32) -> Seq<Slot> {
    if count == 2 {
        stacked_pair_slots(canvas_width, canvas_height)
    } else if count == 4 {
        grid_slots(canvas_width, canvas_height)
    } else {
        Seq::empty()
    }
}

/// The cells of either arrangement lie on the canvas and share no pixel,
/// and there is one for each product.
pub proof fn lemma_slots_on_canvas(count: nat, canvas_width: u32, canvas_height: u32)
    ensures
        count == 2 || count == 4 ==> slots_for(count, canvas_width, canvas_height).len() == count,
        forall|i: int|
            0 <= i < slots_for(count, canvas_width, canvas_height).len() ==> (#[trigger] slots_for(
                count,
                canvas_width,
                canvas_height,
            )[i]).within(canvas_width as nat, canvas_height as nat),
        forall|i: int, j: int|
            0 <= i < j < slots_for(count, canvas_width, canvas_height).len() ==> (
            #[trigger] slots_for(count, canvas_width, canvas_height)[i]).apart_from(
                #[trigger] slots_for(count, canvas_width, canvas_height)[j],
            ),
{
}

/// In the stacked pair the barcode of either band starts below the last
/// row of its text block, whatever height the text was measured at.
pub proof fn lemma_stacked_pair_barcode_below_text(
    canvas_width: u32,
    canvas_height: u32,
    band: int,
    title: Option<PackedGrid>,
    block: PackedGrid,
)
    requires
        0 <= band < 2,
    ensures
        stacked_pair_slots(canvas_width, canvas_height)[band].barcode_y(title, block)
            > stacked_pair_slots(canvas_width, canvas_height)[band].text_y(title) + block.height,
{
}

/// The views of a sequence of rasters.
pub open spec fn raster_views(blocks: Seq<PackedRaster>) -> Seq<PackedGrid> {
    Seq::new(blocks.len(), |i: int| blocks[i]@)
}

/// The views of a sequence of codes.
pub open spec fn code_views(codes: Seq<Ean13Code>) -> Seq<Seq<char>> {
    Seq::new(codes.len(), |i: int| codes[i]@)
}

/// The view of a title, where there is one.
pub open spec fn title_view(title: Option<&PackedRaster>) -> Option<PackedGrid> {
    match title {
        Some(t) => Some(t@),
        None => None,
    }
}

/// Whether every product fits its cell.
pub open spec fn plan_fits(
    slots: Seq<Slot>,
    title: Option<PackedGrid>,
    blocks: Seq<PackedGrid>,
    config: RenderConfig,
) -> bool {
    forall|i: int| 0 <= i < slots.len() ==> (#[trigger] slots[i]).fits(title, blocks[i], config)
}

/// The elements of the first `count` cells, cell by cell.
pub open spec fn plan_elements(
    slots: Seq<Slot>,
    title: Option<PackedGrid>,
    blocks: Seq<PackedGrid>,
    codes: Seq<Seq<char>>,
    config: RenderConfig,
    count: nat,
) -> Seq<ElementView>
    decreases count,
{
    if count == 0 {
        Seq::empty()
    } else {
        plan_elements(slots, title, blocks, codes, config, (count - 1) as nat) + slots[count
            - 1].elements(title, blocks[count - 1], codes[count - 1], config)
    }
}

/// The label that the planner gives for `blocks.len()` products.
pub open spec fn planned_document(
    canvas_width: u32,
    canvas_height: u32,
    title: Option<PackedGrid>,
    blocks: Seq<PackedGrid>,
    codes: Seq<Seq<char>>,
    config: RenderConfig,
) -> DocumentView {
    DocumentView {
        canvas_width: canvas_width as nat,
        canvas_height: canvas_height as nat,
        gap: config.label_gap as nat,
        darkness: config.darkness as nat,
        speed: config.speed as nat,
        elements: plan_elements(
            slots_for(blocks.len(), canvas_width, canvas_height),
            title,
            blocks,
            codes,
            config,
            blocks.len(),
        ),
    }
}

/// Every element of the first `count` cells lies in one of these cells,
/// where each of them fits its cell.
pub proof fn lemma_plan_elements_held(
    slots: Seq<Slot>,
    title: Option<PackedGrid>,
    blocks: Seq<PackedGrid>,
    codes: Seq<Seq<char>>,
    config: RenderConfig,
    count: nat,
    i: int,
) -> (k: int)
    requires
        count <= slots.len(),
        forall|j: int| 0 <= j < count ==> (#[trigger] slots[j]).fits(title, blocks[j], config),
        0 <= i < plan_elements(slots, title, blocks, codes, config, count).len(),
    ensures
        0 <= k < count,
        slots[k].holds(plan_elements(slots, title, blocks, codes, config, count)[i]),
    decreases count,
{
    let before = plan_elements(slots, title, blocks, codes, config, (count - 1) as nat);
    if i < before.len() {
        lemma_plan_elements_held(slots, title, blocks, codes, config, (count - 1) as nat, i)
    } else {
        let last = slots[count - 1];
        lemma_stack_in_cell(last, title, blocks[count - 1], codes[count - 1], config);
        assert(last.holds(
            last.elements(title, blocks[count - 1], codes[count - 1], config)[i - before.len()],
        ));
        count - 1
    }
}

/// No two elements of a planned label share a pixel, where the cells share
/// none and every product fits its cell: nothing overlaps.
pub proof fn lemma_plan_elements_apart(
    slots: Seq<Slot>,
    title: Option<PackedGrid>,
    blocks: Seq<PackedGrid>,
    codes: Seq<Seq<char>>,
    config: RenderConfig,
    count: nat,
    a: int,
    b: int,
)
    requires
        count <= slots.len(),
        forall|j: int| 0 <= j < count ==> (#[trigger] slots[j]).fits(title, blocks[j], config),
        forall|i: int, j: int|
            0 <= i < j < slots.len() ==> (#[trigger] slots[i]).apart_from(#[trigger] slots[j]),
        0 <= a < b < plan_elements(slots, title, blocks, codes, config, count).len(),
    ensures
        plan_elements(slots, title, blocks, codes, config, count)[a].apart_from(
            plan_elements(slots, title, blocks, codes, config, count)[b],
        ),
    decreases count,
{
    let before = plan_elements(slots, title, blocks, codes, config, (count - 1) as nat);
    let last = slots[count - 1];
    let stack = last.elements(title, blocks[count - 1], codes[count - 1], config);
    if b < before.len() {
        lemma_plan_elements_apart(slots, title, blocks, codes, config, (count - 1) as nat, a, b);
    } else {
        lemma_stack_in_cell(last, title, blocks[count - 1], codes[count - 1], config);
        assert(last.holds(stack[b - before.len()]));
        if a < before.len() {
            let k = lemma_plan_elements_held(
                slots,
                title,
                blocks,
                codes,
                config,
                (count - 1) as nat,
                a,
            );
            assert(slots[k].apart_from(slots[count - 1]));
        } else {
            assert(stack[a - before.len()].bottom() <= stack[b - before.len()].top());
        }
    }
}

/// Every element of a planned label lies on the canvas and no two of them
/// share a pixel, where every product fits its cell: nothing is clipped
/// and nothing overlaps.
pub proof fn lemma_planned_document_sound(
    canvas_width: u32,
    canvas_height: u32,
    title: Option<PackedGrid>,
    blocks: Seq<PackedGrid>,
    codes: Seq<Seq<char>>,
    config: RenderConfig,
)
    requires
        config.wf(),
        blocks.len() == 2 || blocks.len() == 4,
        plan_fits(slots_for(blocks.len(), canvas_width, canvas_height), title, blocks, config),
    ensures
        planned_document(canvas_width, canvas_height, title, blocks, codes, config).wf(),
        forall|a: int, b: int|
            0 <= a < b < planned_document(
                canvas_width,
                canvas_height,
                title,
                blocks,
                codes,
                config,
            ).elements.len() ==> (#[trigger] planned_document(
                canvas_width,
                canvas_height,
                title,
                blocks,
                codes,
                config,
            ).elements[a]).apart_from(
                #[trigger] planned_document(
                    canvas_width,
                    canvas_height,
                    title,
                    blocks,
                    codes,
                    config,
                ).elements[b],
            ),
{
    let slots = slots_for(blocks.len(), canvas_width, canvas_height);
    let doc = planned_document(canvas_width, canvas_height, title, blocks, codes, config);
    lemma_slots_on_canvas(blocks.len(), canvas_width, canvas_height);
    assert forall|i: int| 0 <= i < doc.elements.len() implies (#[trigger] doc.elements[i]).fits(
        canvas_width as nat,
        canvas_height as nat,
    ) by {
        let k = lemma_plan_elements_held(slots, title, blocks, codes, config, blocks.len(), i);
        assert(slots[k].within(canvas_width as nat, canvas_height as nat));
    }
    assert forall|a: int, b: int| 0 <= a < b < doc.elements.len() implies (
    #[trigger] doc.elements[a]).apart_from(#[trigger] doc.elements[b]) by {
        lemma_plan_elements_apart(slots, title, blocks, codes, config, blocks.len(), a, b);
    }
}

/// The left edge of an EAN-13 barcode with modules of `narrow` dots set in
/// the middle of `label_w` dots; the left edge of the label where the
/// barcode is as wide as the label or wider.
pub open spec fn spec_center_x_for_ean13(label_w: u32, narrow: u32) -> nat {
    if 95 * narrow >= label_w {
        0
    } else {
        ((label_w - 95 * narrow) / 2) as nat
    }
}

/// The left edge of an EAN-13 barcode set in the middle of the label.
pub fn center_x_for_ean13(label_w: u32, narrow: u32) -> (x: u32)
    ensures
        x == spec_center_x_for_ean13(label_w, narrow),
{
    let barcode_w: u64 = EAN13_MODULES * (narrow as u64);
    if barcode_w >= label_w as u64 {
        0
    } else {
        ((label_w as u64 - barcode_w) / 2) as u32
    }
}

/// The two cells of the stacked pair.
pub fn stacked_pair(canvas_width: u32, canvas_height: u32) -> (slots: Vec<Slot>)
    ensures
        slots@ == stacked_pair_slots(canvas_width, canvas_height),
{
    let band: u32 = canvas_height / 2;
    let mut slots: Vec<Slot> = Vec::new();
    slots.push(
        Slot {
            cell: Cell { left: 0, top: 0, width: canvas_width, height: band },
            top_margin: 10,
            title_gap: 12,
            barcode_gap: 8,
            align: TextAlign::Right { padding: 10 },
            barcode_shift: 0,
        },
    );
    slots.push(
        Slot {
            cell: Cell { left: 0, top: band, width: canvas_width, height: band },
            top_margin: 10,
            title_gap: 12,
            barcode_gap: 8,
            align: TextAlign::Right { padding: 10 },
            barcode_shift: 0,
        },
    );
    proof {
        assert(slots@ =~= stacked_pair_slots(canvas_width, canvas_height));
    }
    slots
}

/// One quadrant of the grid.
fn quadrant(left: u32, top: u32, width: u32, height: u32, shift: u32) -> (slot: Slot)
    ensures
        slot == grid_slot(left, top, width, height, shift),
{
    Slot {
        cell: Cell { left, top, width, height },
        top_margin: 4,
        title_gap: 6,
        barcode_gap: 3,
        align: TextAlign::Centered,
        barcode_shift: shift,
    }
}

/// The four cells of the grid, row by row.
pub fn grid(canvas_width: u32, canvas_height: u32) -> (slots: Vec<Slot>)
    ensures
        slots@ == grid_slots(canvas_width, canvas_height),
{
    let half_w: u32 = canvas_width / 2;
    let half_h: u32 = canvas_height / 2;
    let w: u32 = if half_w >= 2 {
        half_w - 2
    } else {
        0
    };
    let h: u32 = if half_h >= 2 {
        half_h - 2
    } else {
        0
    };
    let x: u32 = if half_w >= 2 {
        half_w + 2
    } else {
        0
    };
    let y: u32 = if half_h >= 2 {
        half_h + 2
    } else {
        0
    };
    let mut slots: Vec<Slot> = Vec::new();
    slots.push(quadrant(0, 0, w, h, 4));
    slots.push(quadrant(x, 0, w, h, 0));
    slots.push(quadrant(0, y, w, h, 4));
    slots.push(quadrant(x, y, w, h, 0));
    proof {
        assert(slots@ =~= grid_slots(canvas_width, canvas_height));
    }
    slots
}

/// Places one product in its cell and appends its elements. Where the
/// stack does not fit the cell nothing is appended.
fn place(
    slot: &Slot,
    title: Option<&PackedRaster>,
    block: &PackedRaster,
    code: &Ean13Code,
    config: &RenderConfig,
    elements: &mut Vec<LabelElement>,
) -> (ok: bool)
    requires
        slot.within(u32::MAX as nat, u32::MAX as nat),
    ensures
        ok == slot.fits(title_view(title), block@, *config),
        ok ==> element_views(final(elements)@) == element_views(old(elements)@) + slot.elements(
            title_view(title),
            block@,
            code@,
            *config,
        ),
        !ok ==> final(elements)@ == old(elements)@,
{
    let left: u64 = slot.cell.left as u64;
    let top: u64 = slot.cell.top as u64;
    let width: u64 = slot.cell.width as u64;
    let height: u64 = slot.cell.height as u64;
    let bar_w: u64 = EAN13_MODULES * (config.narrow as u64);
    let title_y: u64 = top + slot.top_margin as u64;
    let text_y: u64 = match title {
        Some(t) => {
            if t.width() as u64 > width {
                return false;
            }
            title_y + t.height() as u64 + slot.title_gap as u64
        },
        None => title_y,
    };
    let block_w: u64 = block.width() as u64;
    let text_x: u64 = match slot.align {
        TextAlign::Centered => {
            if block_w > width {
                return false;
            }
            left + (width - block_w) / 2
        },
        TextAlign::Right { padding } => {
            if block_w + padding as u64 > width {
                return false;
            }
            left + width - padding as u64 - block_w
        },
    };
    if bar_w > width {
        return false;
    }
    let bar_x: u64 = left + center_x_for_ean13(slot.cell.width, config.narrow) as u64
        + slot.barcode_shift as u64;
    if bar_x + bar_w > left + width {
        return false;
    }
    let bar_y: u64 = text_y + block.height() as u64 + slot.barcode_gap as u64;
    if bar_y + config.barcode_height as u64 > top + height {
        return false;
    }
    let ghost before = element_views(elements@);
    let ghost rest = slot.elements(title_view(title), block@, code@, *config);
    match title {
        Some(t) => {
            let placed = LabelElement::TextBlock {
                raster: t.duplicate(),
                x: (left + (width - t.width() as u64) / 2) as u32,
                y: title_y as u32,
            };
            elements.push(placed);
        },
        None => {},
    }
    elements.push(
        LabelElement::TextBlock { raster: block.duplicate(), x: text_x as u32, y: text_y as u32 },
    );
    elements.push(
        LabelElement::Barcode {
            x: bar_x as u32,
            y: bar_y as u32,
            rotation: 0,
            narrow: config.narrow,
            wide: config.wide,
            height: config.barcode_height,
            hri_visible: config.hri_visible,
            digits: code.duplicate(),
        },
    );
    proof {
        assert(element_views(elements@) =~= before + rest);
    }
    true
}

/// Plans the label for two or four products. Two are stacked in the halves
/// of the canvas, four are set in its quadrants; in each cell the title,
/// where there is one, the text block and the barcode follow each other
/// from the top, each below the measured height of the one before.
///
/// Any other number of products is refused, and so is a number of codes
/// that differs from the number of blocks. A product whose stack does not
/// fit its cell makes the canvas too small: nothing overlaps or is clipped.
pub fn plan_label(
    canvas_width: u32,
    canvas_height: u32,
    title: Option<&PackedRaster>,
    blocks: &Vec<PackedRaster>,
    codes: &Vec<Ean13Code>,
    config: &RenderConfig,
) -> (out: Result<LabelDocument, LabelError>)
    requires
        config.wf(),
    ensures
        out == Err::<LabelDocument, LabelError>(LabelError::InvalidProductCount) <==> !((
        blocks@.len() == 2 || blocks@.len() == 4) && codes@.len() == blocks@.len()),
        out == Err::<LabelDocument, LabelError>(LabelError::CanvasTooSmall) <==> (blocks@.len()
            == 2 || blocks@.len() == 4) && codes@.len() == blocks@.len() && !plan_fits(
            slots_for(blocks@.len(), canvas_width, canvas_height),
            title_view(title),
            raster_views(blocks@),
            *config,
        ),
        out matches Ok(doc) ==> doc@ == planned_document(
            canvas_width,
            canvas_height,
            title_view(title),
            raster_views(blocks@),
            code_views(codes@),
            *config,
        ),
        out matches Err(e) ==> e == LabelError::InvalidProductCount || e
            == LabelError::CanvasTooSmall,
{
    let n: usize = blocks.len();
    if !(n == 2 || n == 4) || codes.len() != n {
        return Err(LabelError::InvalidProductCount);
    }
    let slots: Vec<Slot> = if n == 2 {
        stacked_pair(canvas_width, canvas_height)
    } else {
        grid(canvas_width, canvas_height)
    };
    let ghost the_title = title_view(title);
    let ghost rasters = raster_views(blocks@);
    let ghost digits = code_views(codes@);
    proof {
        lemma_slots_on_canvas(n as nat, canvas_width, canvas_height);
    }
    let mut elements: Vec<LabelElement> = Vec::new();
    let mut i: usize = 0;
    proof {
        assert(element_views(elements@) =~= plan_elements(
            slots@,
            the_title,
            rasters,
            digits,
            *config,
            0,
        ));
    }
    while i < n
        invariant
            n == blocks@.len(),
            n == codes@.len(),
            n == slots@.len(),
            slots@ == slots_for(n as nat, canvas_width, canvas_height),
            the_title == title_view(title),
            rasters == raster_views(blocks@),
            digits == code_views(codes@),
            i <= n,
            forall|k: int|
                0 <= k < n ==> (#[trigger] slots@[k]).within(
                    canvas_width as nat,
                    canvas_height as nat,
                ),
            forall|k: int|
                0 <= k < i ==> (#[trigger] slots@[k]).fits(the_title, rasters[k], *config),
            element_views(elements@) == plan_elements(
                slots@,
                the_title,
                rasters,
                digits,
                *config,
                i as nat,
            ),
            forall|k: int|
                0 <= k < elements@.len() ==> (#[trigger] elements@[k])@.fits(
                    canvas_width as nat,
                    canvas_height as nat,
                ),
        decreases n - i,
    {
        let slot: &Slot = &slots[i];
        let ghost before = elements@;
        let ok: bool = place(slot, title, &blocks[i], &codes[i], config, &mut elements);
        if !ok {
            return Err(LabelError::CanvasTooSmall);
        }
        proof {
            let added = slot.elements(the_title, rasters[i as int], digits[i as int], *config);
            lemma_stack_in_cell(*slot, the_title, rasters[i as int], digits[i as int], *config);
            assert(element_views(elements@) == element_views(before) + added);
            assert forall|k: int| 0 <= k < elements@.len() implies (#[trigger] elements@[k])@.fits(
                canvas_width as nat,
                canvas_height as nat,
            ) by {
                if k < before.len() {
                    assert(element_views(elements@)[k] == element_views(before)[k]);
                    assert(elements@[k]@ == before[k]@);
                } else {
                    assert(element_views(elements@)[k] == added[k - before.len()]);
                    assert(slot.holds(added[k - before.len()]));
                }
            }
        }
        i += 1;
    }
    Ok(LabelDocument::assemble(canvas_width, canvas_height, config, elements))
}

} // verus!
