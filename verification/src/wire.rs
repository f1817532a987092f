//! The wire form of a document, and the decoding rules that turn it into a
//! typed document.
//!
//! A wire value records what a stored document holds before any rule has
//! been applied: a field may be absent, and a numeric field may arrive as
//! an integer, as text or as a boolean. Decoding checks that the required
//! fields are there and coerces the numeric fields; encoding is its inverse.

use vstd::prelude::*;
use crate::document::{
    colors_model, copy_colors, frames_model, pages_model, DocumentModel, FrameData, FrameModel,
    FramesData, FramesModel, LEDConfiguration, PageData, PageModel,
};
use crate::error::DecodeError;
use crate::text::{parse_decimal, parse_decimal_text};

verus! {

/// A numeric field as it arrives.
#[derive(Clone, Debug, PartialEq, Eq)]
pub enum WireNumber {
    /// A non-negative integer.
    Unsigned(u64),
    /// Text, expected to hold a base-10 literal.
    Text(String),
    /// A boolean.
    Flag(bool),
    /// Anything else: a negative or fractional number, null, a list, a
    /// record.
    Other,
}

/// A frame as it arrives.
#[derive(Clone, Debug, PartialEq)]
pub struct WireFrame {
    pub frame_index: Option<WireNumber>,
    pub frame_rgb: Option<Vec<String>>,
}

/// A frame group as it arrives.
#[derive(Clone, Debug, PartialEq)]
pub struct WireFrames {
    pub valid: Option<WireNumber>,
    pub frame_num: Option<WireNumber>,
    pub frame_data: Option<Vec<WireFrame>>,
}

/// A page as it arrives.
#[derive(Clone, Debug, PartialEq)]
pub struct WirePage {
    pub valid: Option<WireNumber>,
    pub page_index: Option<u32>,
    pub lightness: Option<u32>,
    pub speed_ms: Option<u32>,
    pub color: Option<serde_json::Value>,
    pub word_page: Option<serde_json::Value>,
    pub frames: Option<WireFrames>,
    pub keyframes: Option<serde_json::Value>,
    pub comment: Option<String>,
}

/// A document as it arrives.
#[derive(Clone, Debug, PartialEq)]
pub struct WireDocument {
    pub product_info: Option<serde_json::Value>,
    pub page_num: Option<u32>,
    pub page_data: Option<Vec<WirePage>>,
}

/// Mathematical value of a [`WireNumber`].
pub enum NumberModel {
    Unsigned(u64),
    Text(Seq<char>),
    Flag(bool),
    Other,
}

/// Mathematical value of a [`WireFrame`].
pub struct WireFrameModel {
    pub frame_index: Option<NumberModel>,
    pub frame_rgb: Option<Seq<Seq<char>>>,
}

/// Mathematical value of a [`WireFrames`].
pub struct WireFramesModel {
    pub valid: Option<NumberModel>,
    pub frame_num: Option<NumberModel>,
    pub frame_data: Option<Seq<WireFrameModel>>,
}

/// Mathematical value of a [`WirePage`].
pub struct WirePageModel {
    pub valid: Option<NumberModel>,
    pub page_index: Option<u32>,
    pub lightness: Option<u32>,
    pub speed_ms: Option<u32>,
    pub color: Option<serde_json::Value>,
    pub word_page: Option<serde_json::Value>,
    pub frames: Option<WireFramesModel>,
    pub keyframes: Option<serde_json::Value>,
    pub comment: Option<Seq<char>>,
}

/// Mathematical value of a [`WireDocument`].
pub struct WireDocumentModel {
    pub product_info: Option<serde_json::Value>,
    pub page_num: Option<u32>,
    pub page_data: Option<Seq<WirePageModel>>,
}

impl View for WireNumber {
    type V = NumberModel;

    open spec fn view(&self) -> NumberModel {
        match self {
            WireNumber::Unsigned(value) => NumberModel::Unsigned(*value),
            WireNumber::Text(text) => NumberModel::Text(text@),
            WireNumber::Flag(flag) => NumberModel::Flag(*flag),
            WireNumber::Other => NumberModel::Other,
        }
    }
}

/// An optional numeric field, as its model.
pub open spec fn number_model(number: Option<WireNumber>) -> Option<NumberModel> {
    match number {
        Some(raw) => Some(raw@),
        None => None,
    }
}

/// The wire frames of a list, each as its model.
pub open spec fn wire_frames_model(frames: Seq<WireFrame>) -> Seq<WireFrameModel> {
    Seq::new(frames.len(), |i: int| frames[i]@)
}

/// The wire pages of a list, each as its model.
pub open spec fn wire_pages_model(pages: Seq<WirePage>) -> Seq<WirePageModel> {
    Seq::new(pages.len(), |i: int| pages[i]@)
}

impl View for WireFrame {
    type V = WireFrameModel;

    open spec fn view(&self) -> WireFrameModel {
        WireFrameModel {
            frame_index: number_model(self.frame_index),
            frame_rgb: match self.frame_rgb {
                Some(colors) => Some(colors_model(colors@)),
                None => None,
            },
        }
    }
}

impl View for WireFrames {
    type V = WireFramesModel;

    open spec fn view(&self) -> WireFramesModel {
        WireFramesModel {
            valid: number_model(self.valid),
            frame_num: number_model(self.frame_num),
            frame_data: match self.frame_data {
                Some(frames) => Some(wire_frames_model(frames@)),
                None => None,
            },
        }
    }
}

impl View for WirePage {
    type V = WirePageModel;

    open spec fn view(&self) -> WirePageModel {
        WirePageModel {
            valid: number_model(self.valid),
            page_index: self.page_index,
            lightness: self.lightness,
            speed_ms: self.speed_ms,
            color: self.color,
            word_page: self.word_page,
            frames: match self.frames {
                Some(frames) => Some(frames@),
                None => None,
            },
            keyframes: self.keyframes,
            comment: match self.comment {
                Some(text) => Some(text@),
                None => None,
            },
        }
    }
}

impl View for WireDocument {
    type V = WireDocumentModel;

    open spec fn view(&self) -> WireDocumentModel {
        WireDocumentModel {
            product_info: self.product_info,
            page_num: self.page_num,
            page_data: match self.page_data {
                Some(pages) => Some(wire_pages_model(pages@)),
                None => None,
            },
        }
    }
}

/// Whether `position` is where the first failure of a list of results
/// stands.
pub open spec fn is_first_failure<T>(results: Seq<Result<T, DecodeError>>, position: int) -> bool {
    &&& 0 <= position < results.len()
    &&& results[position] is Err
    &&& forall|j: int| 0 <= j < position ==> (#[trigger] results[j]) is Ok
}

/// A list of results as one result: all the values in order when every
/// element succeeded, else the error of the first element that failed.
pub open spec fn collect<T>(results: Seq<Result<T, DecodeError>>) -> Result<Seq<T>, DecodeError> {
    if forall|i: int| 0 <= i < results.len() ==> (#[trigger] results[i]) is Ok {
        Ok(Seq::new(results.len(), |i: int| results[i]->Ok_0))
    } else {
        Err(results[choose|i: int| is_first_failure(results, i)]->Err_0)
    }
}

/// The first failure of a list is the one that `collect` reports.
pub proof fn lemma_collect_reports_first_failure<T>(
    results: Seq<Result<T, DecodeError>>,
    position: int,
)
    requires
        is_first_failure(results, position),
    ensures
        collect(results) == Err::<Seq<T>, DecodeError>(results[position]->Err_0),
{
    let chosen = choose|i: int| is_first_failure(results, i);
    assert(is_first_failure(results, chosen));
    if chosen < position {
        assert(results[chosen] is Ok);
    } else if position < chosen {
        assert(results[position] is Ok);
    }
}

impl NumberModel {
    /// The tolerant numeric rule. An integer stands for itself when it fits
    /// in 32 bits; text is read as a base-10 literal; a boolean is 1 when
    /// true and 0 when false; any other shape is refused.
    pub open spec fn decode(self) -> Result<u32, DecodeError> {
        match self {
            NumberModel::Unsigned(value) => if value <= u32::MAX {
                Ok(value as u32)
            } else {
                Err(DecodeError::NumberTooLarge)
            },
            NumberModel::Text(text) => parse_decimal(text),
            NumberModel::Flag(flag) => Ok(
                if flag {
                    1u32
                } else {
                    0u32
                },
            ),
            NumberModel::Other => Err(DecodeError::UnsupportedShape),
        }
    }
}

/// A numeric field that must be there.
pub open spec fn decode_required(number: Option<NumberModel>) -> Result<u32, DecodeError> {
    match number {
        Some(raw) => raw.decode(),
        None => Err(DecodeError::MissingField),
    }
}

/// A numeric field that may be absent.
pub open spec fn decode_optional(number: Option<NumberModel>) -> Result<Option<u32>, DecodeError> {
    match number {
        Some(raw) => match raw.decode() {
            Ok(value) => Ok(Some(value)),
            Err(reason) => Err(reason),
        },
        None => Ok(None),
    }
}

impl WireFrameModel {
    /// The frame that this wire value stands for. Both fields are required;
    /// the index is read by the tolerant numeric rule.
    pub open spec fn decode(self) -> Result<FrameModel, DecodeError> {
        let index = decode_required(self.frame_index);
        if index is Err {
            Err(index->Err_0)
        } else if self.frame_rgb is None {
            Err(DecodeError::MissingField)
        } else {
            Ok(FrameModel { frame_index: index->Ok_0, frame_rgb: self.frame_rgb->0 })
        }
    }
}

/// What each frame of a list decodes to.
pub open spec fn frame_results(frames: Seq<WireFrameModel>) -> Seq<Result<FrameModel, DecodeError>> {
    Seq::new(frames.len(), |i: int| frames[i].decode())
}

/// Every frame of a list decoded; the first failure ends the decoding.
pub open spec fn decode_frames(frames: Seq<WireFrameModel>) -> Result<Seq<FrameModel>, DecodeError> {
    collect(frame_results(frames))
}

impl WireFramesModel {
    /// The frame group that this wire value stands for. The frame list is
    /// required; `valid` and `frame_num` may be absent and are read by the
    /// tolerant numeric rule when present.
    pub open spec fn decode(self) -> Result<FramesModel, DecodeError> {
        let valid = decode_optional(self.valid);
        let frame_num = decode_optional(self.frame_num);
        if valid is Err {
            Err(valid->Err_0)
        } else if frame_num is Err {
            Err(frame_num->Err_0)
        } else if self.frame_data is None {
            Err(DecodeError::MissingField)
        } else {
            match decode_frames(self.frame_data->0) {
                Ok(frame_data) => Ok(
                    FramesModel { valid: valid->Ok_0, frame_num: frame_num->Ok_0, frame_data },
                ),
                Err(reason) => Err(reason),
            }
        }
    }
}

impl WirePageModel {
    /// The page that this wire value stands for. Every field but the
    /// comment is required; `valid` is read by the tolerant numeric rule.
    /// Fields are checked in the order in which the page declares them.
    pub open spec fn decode(self) -> Result<PageModel, DecodeError> {
        let valid = decode_required(self.valid);
        if valid is Err {
            Err(valid->Err_0)
        } else if self.page_index is None || self.lightness is None || self.speed_ms is None
            || self.color is None || self.word_page is None || self.frames is None {
            Err(DecodeError::MissingField)
        } else {
            match self.frames->0.decode() {
                Err(reason) => Err(reason),
                Ok(frames) => if self.keyframes is None {
                    Err(DecodeError::MissingField)
                } else {
                    Ok(
                        PageModel {
                            valid: valid->Ok_0,
                            page_index: self.page_index->0,
                            lightness: self.lightness->0,
                            speed_ms: self.speed_ms->0,
                            color: self.color->0,
                            word_page: self.word_page->0,
                            frames,
                            keyframes: self.keyframes->0,
                            comment: self.comment,
                        },
                    )
                },
            }
        }
    }
}

/// What each page of a list decodes to.
pub open spec fn page_results(pages: Seq<WirePageModel>) -> Seq<Result<PageModel, DecodeError>> {
    Seq::new(pages.len(), |i: int| pages[i].decode())
}

/// Every page of a list decoded; the first failure ends the decoding.
pub open spec fn decode_pages(pages: Seq<WirePageModel>) -> Result<Seq<PageModel>, DecodeError> {
    collect(page_results(pages))
}

impl WireDocumentModel {
    /// The document that this wire value stands for. All three fields are
    /// required.
    pub open spec fn decode(self) -> Result<DocumentModel, DecodeError> {
        if self.product_info is None || self.page_num is None || self.page_data is None {
            Err(DecodeError::MissingField)
        } else {
            match decode_pages(self.page_data->0) {
                Ok(page_data) => Ok(
                    DocumentModel {
                        product_info: self.product_info->0,
                        page_num: self.page_num->0,
                        page_data,
                    },
                ),
                Err(reason) => Err(reason),
            }
        }
    }
}

/// A number in its plainest wire shape.
pub open spec fn encode_number(value: u32) -> NumberModel {
    NumberModel::Unsigned(value as u64)
}

/// An optional number in its plainest wire shape.
pub open spec fn encode_optional(value: Option<u32>) -> Option<NumberModel> {
    match value {
        Some(number) => Some(encode_number(number)),
        None => None,
    }
}

impl FrameModel {
    /// The wire form of the frame: every field present, the index as an
    /// integer.
    pub open spec fn encode(self) -> WireFrameModel {
        WireFrameModel {
            frame_index: Some(encode_number(self.frame_index)),
            frame_rgb: Some(self.frame_rgb),
        }
    }
}

/// The wire form of a list of frames.
pub open spec fn encode_frames(frames: Seq<FrameModel>) -> Seq<WireFrameModel> {
    Seq::new(frames.len(), |i: int| frames[i].encode())
}

impl FramesModel {
    /// The wire form of the frame group.
    pub open spec fn encode(self) -> WireFramesModel {
        WireFramesModel {
            valid: encode_optional(self.valid),
            frame_num: encode_optional(self.frame_num),
            frame_data: Some(encode_frames(self.frame_data)),
        }
    }
}

impl PageModel {
    /// The wire form of the page: every field present but, possibly, the
    /// comment; the metadata blobs as they are.
    pub open spec fn encode(self) -> WirePageModel {
        WirePageModel {
            valid: Some(encode_number(self.valid)),
            page_index: Some(self.page_index),
            lightness: Some(self.lightness),
            speed_ms: Some(self.speed_ms),
            color: Some(self.color),
            word_page: Some(self.word_page),
            frames: Some(self.frames.encode()),
            keyframes: Some(self.keyframes),
            comment: self.comment,
        }
    }
}

/// The wire form of a list of pages.
pub open spec fn encode_pages(pages: Seq<PageModel>) -> Seq<WirePageModel> {
    Seq::new(pages.len(), |i: int| pages[i].encode())
}

impl DocumentModel {
    /// The wire form of the document.
    pub open spec fn encode(self) -> WireDocumentModel {
        WireDocumentModel {
            product_info: Some(self.product_info),
            page_num: Some(self.page_num),
            page_data: Some(encode_pages(self.page_data)),
        }
    }
}

/// Decoding the wire form of a number gives the number back.
pub proof fn lemma_number_round_trip(value: u32)
    ensures
        encode_number(value).decode() == Ok::<u32, DecodeError>(value),
        decode_required(Some(encode_number(value))) == Ok::<u32, DecodeError>(value),
{
}

/// Decoding the wire form of a frame gives the frame back.
pub proof fn lemma_frame_round_trip(frame: FrameModel)
    ensures
        frame.encode().decode() == Ok::<FrameModel, DecodeError>(frame),
{
    lemma_number_round_trip(frame.frame_index);
}

/// Decoding the wire form of a frame group gives the group back.
pub proof fn lemma_frames_round_trip(frames: FramesModel)
    ensures
        frames.encode().decode() == Ok::<FramesModel, DecodeError>(frames),
{
    let results = frame_results(encode_frames(frames.frame_data));
    assert forall|i: int| 0 <= i < results.len() implies #[trigger] results[i] == Ok::<
        FrameModel,
        DecodeError,
    >(frames.frame_data[i]) by {
        lemma_frame_round_trip(frames.frame_data[i]);
    }
    assert(Seq::new(results.len(), |i: int| results[i]->Ok_0) =~= frames.frame_data);
    if let Some(valid) = frames.valid {
        lemma_number_round_trip(valid);
    }
    if let Some(frame_num) = frames.frame_num {
        lemma_number_round_trip(frame_num);
    }
}

/// Decoding the wire form of a page gives the page back.
pub proof fn lemma_page_round_trip(page: PageModel)
    ensures
        page.encode().decode() == Ok::<PageModel, DecodeError>(page),
{
    lemma_number_round_trip(page.valid);
    lemma_frames_round_trip(page.frames);
}

/// Decoding the wire form of a document gives the document back, whatever
/// metadata, comments and numbers it holds.
pub proof fn lemma_decode_inverts_encode(document: DocumentModel)
    ensures
        document.encode().decode() == Ok::<DocumentModel, DecodeError>(document),
{
    let results = page_results(encode_pages(document.page_data));
    assert forall|i: int| 0 <= i < results.len() implies #[trigger] results[i] == Ok::<
        PageModel,
        DecodeError,
    >(document.page_data[i]) by {
        lemma_page_round_trip(document.page_data[i]);
    }
    assert(Seq::new(results.len(), |i: int| results[i]->Ok_0) =~= document.page_data);
}

/// A document decoded from any wire value, whatever shapes its numeric
/// fields arrived in, is unchanged by being encoded and decoded again.
pub proof fn lemma_reencoding_is_stable(wire: WireDocumentModel)
    ensures
        wire.decode() matches Ok(document) ==> document.encode().decode() == wire.decode(),
{
    if let Ok(document) = wire.decode() {
        lemma_decode_inverts_encode(document);
    }
}

/// Reads a numeric field by the tolerant rule: an integer, text holding a
/// base-10 literal, or a boolean.
pub fn deserialize_flexible_number(raw: &WireNumber) -> (decoded: Result<u32, DecodeError>)
    ensures
        decoded == raw@.decode(),
{
    match raw {
        WireNumber::Unsigned(value) => if *value <= 0xffff_ffffu64 {
            Ok(*value as u32)
        } else {
            Err(DecodeError::NumberTooLarge)
        },
        WireNumber::Text(text) => parse_decimal_text(text.as_str()),
        WireNumber::Flag(flag) => if *flag {
            Ok(1)
        } else {
            Ok(0)
        },
        WireNumber::Other => Err(DecodeError::UnsupportedShape),
    }
}

/// Reads a numeric field that must be there.
fn read_required(raw: &Option<WireNumber>) -> (decoded: Result<u32, DecodeError>)
    ensures
        decoded == decode_required(number_model(*raw)),
{
    match raw {
        Some(number) => deserialize_flexible_number(number),
        None => Err(DecodeError::MissingField),
    }
}

/// Reads a numeric field that may be absent.
fn read_optional(raw: &Option<WireNumber>) -> (decoded: Result<Option<u32>, DecodeError>)
    ensures
        decoded == decode_optional(number_model(*raw)),
{
    match raw {
        Some(number) => match deserialize_flexible_number(number) {
            Ok(value) => Ok(Some(value)),
            Err(error) => Err(error),
        },
        None => Ok(None),
    }
}

/// Decodes every frame of a list, stopping at the first failure.
fn decode_frame_list(frames: &Vec<WireFrame>) -> (decoded: Result<Vec<FrameData>, DecodeError>)
    ensures
        match decode_frames(wire_frames_model(frames@)) {
            Ok(list) => decoded matches Ok(found) && frames_model(found@) == list,
            Err(reason) => decoded matches Err(error) && error == reason,
        },
{
    let ghost results = frame_results(wire_frames_model(frames@));
    let mut list: Vec<FrameData> = Vec::new();
    let mut index: usize = 0;
    while index < frames.len()
        invariant
            index <= frames.len(),
            results == frame_results(wire_frames_model(frames@)),
            list@.len() == index,
            forall|k: int|
                0 <= k < index ==> (#[trigger] results[k]) == Ok::<FrameModel, DecodeError>(list@[k]@),
        decreases frames.len() - index,
    {
        match frames[index].decode() {
            Ok(frame) => {
                list.push(frame);
            },
            Err(error) => {
                proof {
                    assert(results[index as int] == Err::<FrameModel, DecodeError>(error));
                    lemma_collect_reports_first_failure(results, index as int);
                }
                return Err(error);
            },
        }
        index += 1;
    }
    proof {
        assert(Seq::new(results.len(), |i: int| results[i]->Ok_0) =~= frames_model(list@));
    }
    Ok(list)
}

/// Decodes every page of a list, stopping at the first failure.
fn decode_page_list(pages: &Vec<WirePage>) -> (decoded: Result<Vec<PageData>, DecodeError>)
    ensures
        match decode_pages(wire_pages_model(pages@)) {
            Ok(list) => decoded matches Ok(found) && pages_model(found@) == list,
            Err(reason) => decoded matches Err(error) && error == reason,
        },
{
    let ghost results = page_results(wire_pages_model(pages@));
    let mut list: Vec<PageData> = Vec::new();
    let mut index: usize = 0;
    while index < pages.len()
        invariant
            index <= pages.len(),
            results == page_results(wire_pages_model(pages@)),
            list@.len() == index,
            forall|k: int|
                0 <= k < index ==> (#[trigger] results[k]) == Ok::<PageModel, DecodeError>(list@[k]@),
        decreases pages.len() - index,
    {
        match pages[index].decode() {
            Ok(page) => {
                list.push(page);
            },
            Err(error) => {
                proof {
                    assert(results[index as int] == Err::<PageModel, DecodeError>(error));
                    lemma_collect_reports_first_failure(results, index as int);
                }
                return Err(error);
            },
        }
        index += 1;
    }
    proof {
        assert(Seq::new(results.len(), |i: int| results[i]->Ok_0) =~= pages_model(list@));
    }
    Ok(list)
}

impl WireFrame {
    /// Decodes the frame, or says why it cannot be decoded.
    pub fn decode(&self) -> (decoded: Result<FrameData, DecodeError>)
        ensures
            match self@.decode() {
                Ok(frame) => decoded matches Ok(found) && found@ == frame,
                Err(reason) => decoded matches Err(error) && error == reason,
            },
    {
        let frame_index: u32 = match read_required(&self.frame_index) {
            Ok(value) => value,
            Err(error) => {
                return Err(error);
            },
        };
        match &self.frame_rgb {
            Some(colors) => Ok(FrameData { frame_index, frame_rgb: copy_colors(colors) }),
            None => Err(DecodeError::MissingField),
        }
    }
}

impl WireFrames {
    /// Decodes the frame group, or says why it cannot be decoded.
    pub fn decode(&self) -> (decoded: Result<FramesData, DecodeError>)
        ensures
            match self@.decode() {
                Ok(frames) => decoded matches Ok(found) && found@ == frames,
                Err(reason) => decoded matches Err(error) && error == reason,
            },
    {
        let valid = match read_optional(&self.valid) {
            Ok(value) => value,
            Err(error) => {
                return Err(error);
            },
        };
        let frame_num = match read_optional(&self.frame_num) {
            Ok(value) => value,
            Err(error) => {
                return Err(error);
            },
        };
        match &self.frame_data {
            Some(frames) => match decode_frame_list(frames) {
                Ok(frame_data) => Ok(FramesData { valid, frame_num, frame_data }),
                Err(error) => Err(error),
            },
            None => Err(DecodeError::MissingField),
        }
    }
}

impl WirePage {
    /// Decodes the page, or says why it cannot be decoded.
    pub fn decode(&self) -> (decoded: Result<PageData, DecodeError>)
        ensures
            match self@.decode() {
                Ok(page) => decoded matches Ok(found) && found@ == page,
                Err(reason) => decoded matches Err(error) && error == reason,
            },
    {
        let valid: u32 = match read_required(&self.valid) {
            Ok(value) => value,
            Err(error) => {
                return Err(error);
            },
        };
        match (
            self.page_index,
            self.lightness,
            self.speed_ms,
            &self.color,
            &self.word_page,
            &self.frames,
        ) {
            (Some(page_index), Some(lightness), Some(speed_ms), Some(color), Some(word_page), Some(wire_frames)) => {
                let frames = match wire_frames.decode() {
                    Ok(frames) => frames,
                    Err(error) => {
                        return Err(error);
                    },
                };
                match &self.keyframes {
                    Some(keyframes) => Ok(
                        PageData {
                            valid,
                            page_index,
                            lightness,
                            speed_ms,
                            color: color.clone(),
                            word_page: word_page.clone(),
                            frames,
                            keyframes: keyframes.clone(),
                            comment: match &self.comment {
                                Some(text) => Some(text.clone()),
                                None => None,
                            },
                        },
                    ),
                    None => Err(DecodeError::MissingField),
                }
            },
            _ => Err(DecodeError::MissingField),
        }
    }
}

impl WireDocument {
    /// Decodes the document, or says why it cannot be decoded: a required
    /// field is absent somewhere, or a numeric field cannot be coerced.
    pub fn decode(&self) -> (decoded: Result<LEDConfiguration, DecodeError>)
        ensures
            match self@.decode() {
                Ok(document) => decoded matches Ok(found) && found@ == document,
                Err(reason) => decoded matches Err(error) && error == reason,
            },
    {
        match (&self.product_info, self.page_num, &self.page_data) {
            (Some(product_info), Some(page_num), Some(pages)) => match decode_page_list(pages) {
                Ok(page_data) => Ok(
                    LEDConfiguration { product_info: product_info.clone(), page_num, page_data },
                ),
                Err(error) => Err(error),
            },
            _ => Err(DecodeError::MissingField),
        }
    }
}

/// The plainest wire shape of an optional number.
fn write_optional(value: Option<u32>) -> (wire: Option<WireNumber>)
    ensures
        number_model(wire) == encode_optional(value),
{
    match value {
        Some(number) => Some(WireNumber::Unsigned(number as u64)),
        None => None,
    }
}

/// Encodes every frame of a list.
fn encode_frame_list(frames: &Vec<FrameData>) -> (wire: Vec<WireFrame>)
    ensures
        wire_frames_model(wire@) == encode_frames(frames_model(frames@)),
{
    let mut wire: Vec<WireFrame> = Vec::new();
    let mut index: usize = 0;
    while index < frames.len()
        invariant
            index <= frames.len(),
            wire@.len() == index,
            forall|k: int| 0 <= k < index ==> (#[trigger] wire@[k])@ == frames@[k]@.encode(),
        decreases frames.len() - index,
    {
        wire.push(frames[index].encode());
        index += 1;
    }
    assert(wire_frames_model(wire@) =~= encode_frames(frames_model(frames@)));
    wire
}

/// Encodes every page of a list.
fn encode_page_list(pages: &Vec<PageData>) -> (wire: Vec<WirePage>)
    ensures
        wire_pages_model(wire@) == encode_pages(pages_model(pages@)),
{
    let mut wire: Vec<WirePage> = Vec::new();
    let mut index: usize = 0;
    while index < pages.len()
        invariant
            index <= pages.len(),
            wire@.len() == index,
            forall|k: int| 0 <= k < index ==> (#[trigger] wire@[k])@ == pages@[k]@.encode(),
        decreases pages.len() - index,
    {
        wire.push(pages[index].encode());
        index += 1;
    }
    assert(wire_pages_model(wire@) =~= encode_pages(pages_model(pages@)));
    wire
}

impl FrameData {
    /// The wire form of the frame.
    pub fn encode(&self) -> (wire: WireFrame)
        ensures
            wire@ == self@.encode(),
    {
        WireFrame {
            frame_index: Some(WireNumber::Unsigned(self.frame_index as u64)),
            frame_rgb: Some(copy_colors(&self.frame_rgb)),
        }
    }
}

impl FramesData {
    /// The wire form of the frame group.
    pub fn encode(&self) -> (wire: WireFrames)
        ensures
            wire@ == self@.encode(),
    {
        WireFrames {
            valid: write_optional(self.valid),
            frame_num: write_optional(self.frame_num),
            frame_data: Some(encode_frame_list(&self.frame_data)),
        }
    }
}

impl PageData {
    /// The wire form of the page. The metadata blobs are copied as they
    /// are.
    pub fn encode(&self) -> (wire: WirePage)
        ensures
            wire@ == self@.encode(),
    {
        WirePage {
            valid: Some(WireNumber::Unsigned(self.valid as u64)),
            page_index: Some(self.page_index),
            lightness: Some(self.lightness),
            speed_ms: Some(self.speed_ms),
            color: Some(self.color.clone()),
            word_page: Some(self.word_page.clone()),
            frames: Some(self.frames.encode()),
            keyframes: Some(self.keyframes.clone()),
            comment: match &self.comment {
                Some(text) => Some(text.clone()),
                None => None,
            },
        }
    }
}

impl LEDConfiguration {
    /// The wire form of the document. Decoding it gives the document back.
    pub fn encode(&self) -> (wire: WireDocument)
        ensures
            wire@ == self@.encode(),
            wire@.decode() == Ok::<DocumentModel, DecodeError>(self@),
    {
        proof {
            lemma_decode_inverts_encode(self@);
        }
        WireDocument {
            product_info: Some(self.product_info.clone()),
            page_num: Some(self.page_num),
            page_data: Some(encode_page_list(&self.page_data)),
        }
    }
}

} // verus!
