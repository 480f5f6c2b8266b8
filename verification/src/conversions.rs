//! From a stricter grammar to a looser one.
//!
//! A media type of one grammar is taken as one of another grammar only where
//! the second accepts whatever the first accepts. The other way round the
//! text would have to be parsed again.
use vstd::prelude::*;
use vstd::std_specs::convert::FromSpecImpl;
use std::marker::PhantomData;
use crate::media_type::AnyMediaType;
use crate::spec::{
    AnySpec, Ascii, HttpSpec, Internationalized, MimeSpec, Modern, Obs, Policy, Spec, StrictSpec,
};
use crate::typed::MediaType;

verus! {

/// Whether a media type of the grammar `from` is taken as one of the grammar
/// `to`.
pub open spec fn converts_to(from: Policy, to: Policy) -> bool {
    match (from, to) {
        (Policy::MimeAsciiObs, Policy::MimeInternationalizedObs) => true,
        (Policy::MimeAsciiModern, Policy::MimeAsciiObs) => true,
        (Policy::MimeAsciiModern, Policy::MimeInternationalizedObs) => true,
        (Policy::MimeAsciiModern, Policy::MimeInternationalizedModern) => true,
        (Policy::MimeInternationalizedModern, Policy::MimeInternationalizedObs) => true,
        (Policy::HttpModern, Policy::HttpObs) => true,
        (Policy::Strict, Policy::HttpModern) => true,
        (Policy::Strict, Policy::HttpObs) => true,
        (Policy::Strict, Policy::MimeAsciiObs) => true,
        (Policy::Strict, Policy::MimeAsciiModern) => true,
        (Policy::Strict, Policy::MimeInternationalizedObs) => true,
        (Policy::Strict, Policy::MimeInternationalizedModern) => true,
        (Policy::Strict, Policy::Any) => true,
        (Policy::HttpModern, Policy::Any) => true,
        (Policy::HttpObs, Policy::Any) => true,
        (Policy::MimeAsciiObs, Policy::Any) => true,
        (Policy::MimeAsciiModern, Policy::Any) => true,
        (Policy::MimeInternationalizedObs, Policy::Any) => true,
        (Policy::MimeInternationalizedModern, Policy::Any) => true,
        _ => false,
    }
}

/// Conversions go one way only, and two of them in a row are one.
pub proof fn lemma_conversions_one_way(a: Policy, b: Policy, c: Policy)
    ensures
        !converts_to(a, a),
        converts_to(a, b) ==> !converts_to(b, a),
        converts_to(a, b) && converts_to(b, c) ==> converts_to(a, c),
        a != Policy::Any ==> converts_to(a, Policy::Any),
        a != Policy::Strict ==> converts_to(Policy::Strict, a),
{
}

impl<S: Spec> From<MediaType<S>> for AnyMediaType {
    fn from(media_type: MediaType<S>) -> (r: AnyMediaType) {
        media_type.into_any()
    }
}

impl<S: Spec> FromSpecImpl<MediaType<S>> for AnyMediaType {
    open spec fn obeys_from_spec() -> bool {
        true
    }

    open spec fn from_spec(media_type: MediaType<S>) -> AnyMediaType {
        media_type.spec_into_any()
    }
}

impl From<MediaType<MimeSpec<Ascii, Obs>>> for MediaType<MimeSpec<Internationalized, Obs>> {
    fn from(
        media_type: MediaType<MimeSpec<Ascii, Obs>>,
    ) -> (r: MediaType<MimeSpec<Internationalized, Obs>>) {
        media_type.convert()
    }
}

impl FromSpecImpl<MediaType<MimeSpec<Ascii, Obs>>> for MediaType<MimeSpec<Internationalized, Obs>> {
    open spec fn obeys_from_spec() -> bool {
        true
    }

    open spec fn from_spec(
        media_type: MediaType<MimeSpec<Ascii, Obs>>,
    ) -> MediaType<MimeSpec<Internationalized, Obs>> {
        media_type.spec_convert()
    }
}

impl From<MediaType<MimeSpec<Ascii, Modern>>> for MediaType<MimeSpec<Ascii, Obs>> {
    fn from(
        media_type: MediaType<MimeSpec<Ascii, Modern>>,
    ) -> (r: MediaType<MimeSpec<Ascii, Obs>>) {
        media_type.convert()
    }
}

impl FromSpecImpl<MediaType<MimeSpec<Ascii, Modern>>> for MediaType<MimeSpec<Ascii, Obs>> {
    open spec fn obeys_from_spec() -> bool {
        true
    }

    open spec fn from_spec(
        media_type: MediaType<MimeSpec<Ascii, Modern>>,
    ) -> MediaType<MimeSpec<Ascii, Obs>> {
        media_type.spec_convert()
    }
}

impl From<MediaType<MimeSpec<Ascii, Modern>>> for MediaType<MimeSpec<Internationalized, Obs>> {
    fn from(
        media_type: MediaType<MimeSpec<Ascii, Modern>>,
    ) -> (r: MediaType<MimeSpec<Internationalized, Obs>>) {
        media_type.convert()
    }
}

impl FromSpecImpl<MediaType<MimeSpec<Ascii, Modern>>>
    for MediaType<MimeSpec<Internationalized, Obs>>
{
    open spec fn obeys_from_spec() -> bool {
        true
    }

    open spec fn from_spec(
        media_type: MediaType<MimeSpec<Ascii, Modern>>,
    ) -> MediaType<MimeSpec<Internationalized, Obs>> {
        media_type.spec_convert()
    }
}

impl From<MediaType<MimeSpec<Ascii, Modern>>> for MediaType<MimeSpec<Internationalized, Modern>> {
    fn from(
        media_type: MediaType<MimeSpec<Ascii, Modern>>,
    ) -> (r: MediaType<MimeSpec<Internationalized, Modern>>) {
        media_type.convert()
    }
}

impl FromSpecImpl<MediaType<MimeSpec<Ascii, Modern>>>
    for MediaType<MimeSpec<Internationalized, Modern>>
{
    open spec fn obeys_from_spec() -> bool {
        true
    }

    open spec fn from_spec(
        media_type: MediaType<MimeSpec<Ascii, Modern>>,
    ) -> MediaType<MimeSpec<Internationalized, Modern>> {
        media_type.spec_convert()
    }
}

impl From<MediaType<MimeSpec<Internationalized, Modern>>>
    for MediaType<MimeSpec<Internationalized, Obs>>
{
    fn from(
        media_type: MediaType<MimeSpec<Internationalized, Modern>>,
    ) -> (r: MediaType<MimeSpec<Internationalized, Obs>>) {
        media_type.convert()
    }
}

impl FromSpecImpl<MediaType<MimeSpec<Internationalized, Modern>>>
    for MediaType<MimeSpec<Internationalized, Obs>>
{
    open spec fn obeys_from_spec() -> bool {
        true
    }

    open spec fn from_spec(
        media_type: MediaType<MimeSpec<Internationalized, Modern>>,
    ) -> MediaType<MimeSpec<Internationalized, Obs>> {
        media_type.spec_convert()
    }
}

impl From<MediaType<HttpSpec<Modern>>> for MediaType<HttpSpec<Obs>> {
    fn from(media_type: MediaType<HttpSpec<Modern>>) -> (r: MediaType<HttpSpec<Obs>>) {
        media_type.convert()
    }
}

impl FromSpecImpl<MediaType<HttpSpec<Modern>>> for MediaType<HttpSpec<Obs>> {
    open spec fn obeys_from_spec() -> bool {
        true
    }

    open spec fn from_spec(media_type: MediaType<HttpSpec<Modern>>) -> MediaType<HttpSpec<Obs>> {
        media_type.spec_convert()
    }
}

impl From<MediaType<StrictSpec>> for MediaType<HttpSpec<Modern>> {
    fn from(media_type: MediaType<StrictSpec>) -> (r: MediaType<HttpSpec<Modern>>) {
        media_type.convert()
    }
}

impl FromSpecImpl<MediaType<StrictSpec>> for MediaType<HttpSpec<Modern>> {
    open spec fn obeys_from_spec() -> bool {
        true
    }

    open spec fn from_spec(media_type: MediaType<StrictSpec>) -> MediaType<HttpSpec<Modern>> {
        media_type.spec_convert()
    }
}

impl From<MediaType<StrictSpec>> for MediaType<HttpSpec<Obs>> {
    fn from(media_type: MediaType<StrictSpec>) -> (r: MediaType<HttpSpec<Obs>>) {
        media_type.convert()
    }
}

impl FromSpecImpl<MediaType<StrictSpec>> for MediaType<HttpSpec<Obs>> {
    open spec fn obeys_from_spec() -> bool {
        true
    }

    open spec fn from_spec(media_type: MediaType<StrictSpec>) -> MediaType<HttpSpec<Obs>> {
        media_type.spec_convert()
    }
}

impl From<MediaType<StrictSpec>> for MediaType<MimeSpec<Ascii, Obs>> {
    fn from(media_type: MediaType<StrictSpec>) -> (r: MediaType<MimeSpec<Ascii, Obs>>) {
        media_type.convert()
    }
}

impl FromSpecImpl<MediaType<StrictSpec>> for MediaType<MimeSpec<Ascii, Obs>> {
    open spec fn obeys_from_spec() -> bool {
        true
    }

    open spec fn from_spec(media_type: MediaType<StrictSpec>) -> MediaType<MimeSpec<Ascii, Obs>> {
        media_type.spec_convert()
    }
}

impl From<MediaType<StrictSpec>> for MediaType<MimeSpec<Ascii, Modern>> {
    fn from(media_type: MediaType<StrictSpec>) -> (r: MediaType<MimeSpec<Ascii, Modern>>) {
        media_type.convert()
    }
}

impl FromSpecImpl<MediaType<StrictSpec>> for MediaType<MimeSpec<Ascii, Modern>> {
    open spec fn obeys_from_spec() -> bool {
        true
    }

    open spec fn from_spec(
        media_type: MediaType<StrictSpec>,
    ) -> MediaType<MimeSpec<Ascii, Modern>> {
        media_type.spec_convert()
    }
}

impl From<MediaType<StrictSpec>> for MediaType<MimeSpec<Internationalized, Obs>> {
    fn from(media_type: MediaType<StrictSpec>) -> (r: MediaType<MimeSpec<Internationalized, Obs>>) {
        media_type.convert()
    }
}

impl FromSpecImpl<MediaType<StrictSpec>> for MediaType<MimeSpec<Internationalized, Obs>> {
    open spec fn obeys_from_spec() -> bool {
        true
    }

    open spec fn from_spec(
        media_type: MediaType<StrictSpec>,
    ) -> MediaType<MimeSpec<Internationalized, Obs>> {
        media_type.spec_convert()
    }
}

impl From<MediaType<StrictSpec>> for MediaType<MimeSpec<Internationalized, Modern>> {
    fn from(
        media_type: MediaType<StrictSpec>,
    ) -> (r: MediaType<MimeSpec<Internationalized, Modern>>) {
        media_type.convert()
    }
}

impl FromSpecImpl<MediaType<StrictSpec>> for MediaType<MimeSpec<Internationalized, Modern>> {
    open spec fn obeys_from_spec() -> bool {
        true
    }

    open spec fn from_spec(
        media_type: MediaType<StrictSpec>,
    ) -> MediaType<MimeSpec<Internationalized, Modern>> {
        media_type.spec_convert()
    }
}

impl From<MediaType<StrictSpec>> for MediaType<AnySpec> {
    fn from(media_type: MediaType<StrictSpec>) -> (r: MediaType<AnySpec>) {
        media_type.convert()
    }
}

impl FromSpecImpl<MediaType<StrictSpec>> for MediaType<AnySpec> {
    open spec fn obeys_from_spec() -> bool {
        true
    }

    open spec fn from_spec(media_type: MediaType<StrictSpec>) -> MediaType<AnySpec> {
        media_type.spec_convert()
    }
}

impl From<MediaType<HttpSpec<Modern>>> for MediaType<AnySpec> {
    fn from(media_type: MediaType<HttpSpec<Modern>>) -> (r: MediaType<AnySpec>) {
        media_type.convert()
    }
}

impl FromSpecImpl<MediaType<HttpSpec<Modern>>> for MediaType<AnySpec> {
    open spec fn obeys_from_spec() -> bool {
        true
    }

    open spec fn from_spec(media_type: MediaType<HttpSpec<Modern>>) -> MediaType<AnySpec> {
        media_type.spec_convert()
    }
}

impl From<MediaType<HttpSpec<Obs>>> for MediaType<AnySpec> {
    fn from(media_type: MediaType<HttpSpec<Obs>>) -> (r: MediaType<AnySpec>) {
        media_type.convert()
    }
}

impl FromSpecImpl<MediaType<HttpSpec<Obs>>> for MediaType<AnySpec> {
    open spec fn obeys_from_spec() -> bool {
        true
    }

    open spec fn from_spec(media_type: MediaType<HttpSpec<Obs>>) -> MediaType<AnySpec> {
        media_type.spec_convert()
    }
}

impl From<MediaType<MimeSpec<Ascii, Obs>>> for MediaType<AnySpec> {
    fn from(media_type: MediaType<MimeSpec<Ascii, Obs>>) -> (r: MediaType<AnySpec>) {
        media_type.convert()
    }
}

impl FromSpecImpl<MediaType<MimeSpec<Ascii, Obs>>> for MediaType<AnySpec> {
    open spec fn obeys_from_spec() -> bool {
        true
    }

    open spec fn from_spec(media_type: MediaType<MimeSpec<Ascii, Obs>>) -> MediaType<AnySpec> {
        media_type.spec_convert()
    }
}

impl From<MediaType<MimeSpec<Ascii, Modern>>> for MediaType<AnySpec> {
    fn from(media_type: MediaType<MimeSpec<Ascii, Modern>>) -> (r: MediaType<AnySpec>) {
        media_type.convert()
    }
}

impl FromSpecImpl<MediaType<MimeSpec<Ascii, Modern>>> for MediaType<AnySpec> {
    open spec fn obeys_from_spec() -> bool {
        true
    }

    open spec fn from_spec(media_type: MediaType<MimeSpec<Ascii, Modern>>) -> MediaType<AnySpec> {
        media_type.spec_convert()
    }
}

impl From<MediaType<MimeSpec<Internationalized, Obs>>> for MediaType<AnySpec> {
    fn from(media_type: MediaType<MimeSpec<Internationalized, Obs>>) -> (r: MediaType<AnySpec>) {
        media_type.convert()
    }
}

impl FromSpecImpl<MediaType<MimeSpec<Internationalized, Obs>>> for MediaType<AnySpec> {
    open spec fn obeys_from_spec() -> bool {
        true
    }

    open spec fn from_spec(
        media_type: MediaType<MimeSpec<Internationalized, Obs>>,
    ) -> MediaType<AnySpec> {
        media_type.spec_convert()
    }
}

impl From<MediaType<MimeSpec<Internationalized, Modern>>> for MediaType<AnySpec> {
    fn from(media_type: MediaType<MimeSpec<Internationalized, Modern>>) -> (r: MediaType<AnySpec>) {
        media_type.convert()
    }
}

impl FromSpecImpl<MediaType<MimeSpec<Internationalized, Modern>>> for MediaType<AnySpec> {
    open spec fn obeys_from_spec() -> bool {
        true
    }

    open spec fn from_spec(
        media_type: MediaType<MimeSpec<Internationalized, Modern>>,
    ) -> MediaType<AnySpec> {
        media_type.spec_convert()
    }
}

impl From<MimeSpec<Ascii, Obs>> for MimeSpec<Internationalized, Obs> {
    fn from(_spec: MimeSpec<Ascii, Obs>) -> (r: MimeSpec<Internationalized, Obs>) {
        MimeSpec(PhantomData)
    }
}

impl FromSpecImpl<MimeSpec<Ascii, Obs>> for MimeSpec<Internationalized, Obs> {
    open spec fn obeys_from_spec() -> bool {
        true
    }

    open spec fn from_spec(_spec: MimeSpec<Ascii, Obs>) -> MimeSpec<Internationalized, Obs> {
        MimeSpec(PhantomData)
    }
}

impl From<MimeSpec<Ascii, Modern>> for MimeSpec<Internationalized, Modern> {
    fn from(_spec: MimeSpec<Ascii, Modern>) -> (r: MimeSpec<Internationalized, Modern>) {
        MimeSpec(PhantomData)
    }
}

impl FromSpecImpl<MimeSpec<Ascii, Modern>> for MimeSpec<Internationalized, Modern> {
    open spec fn obeys_from_spec() -> bool {
        true
    }

    open spec fn from_spec(_spec: MimeSpec<Ascii, Modern>) -> MimeSpec<Internationalized, Modern> {
        MimeSpec(PhantomData)
    }
}

impl From<MimeSpec<Ascii, Modern>> for MimeSpec<Ascii, Obs> {
    fn from(_spec: MimeSpec<Ascii, Modern>) -> (r: MimeSpec<Ascii, Obs>) {
        MimeSpec(PhantomData)
    }
}

impl FromSpecImpl<MimeSpec<Ascii, Modern>> for MimeSpec<Ascii, Obs> {
    open spec fn obeys_from_spec() -> bool {
        true
    }

    open spec fn from_spec(_spec: MimeSpec<Ascii, Modern>) -> MimeSpec<Ascii, Obs> {
        MimeSpec(PhantomData)
    }
}

impl From<MimeSpec<Ascii, Modern>> for MimeSpec<Internationalized, Obs> {
    fn from(_spec: MimeSpec<Ascii, Modern>) -> (r: MimeSpec<Internationalized, Obs>) {
        MimeSpec(PhantomData)
    }
}

impl FromSpecImpl<MimeSpec<Ascii, Modern>> for MimeSpec<Internationalized, Obs> {
    open spec fn obeys_from_spec() -> bool {
        true
    }

    open spec fn from_spec(_spec: MimeSpec<Ascii, Modern>) -> MimeSpec<Internationalized, Obs> {
        MimeSpec(PhantomData)
    }
}

impl From<MimeSpec<Internationalized, Modern>> for MimeSpec<Internationalized, Obs> {
    fn from(_spec: MimeSpec<Internationalized, Modern>) -> (r: MimeSpec<Internationalized, Obs>) {
        MimeSpec(PhantomData)
    }
}

impl FromSpecImpl<MimeSpec<Internationalized, Modern>> for MimeSpec<Internationalized, Obs> {
    open spec fn obeys_from_spec() -> bool {
        true
    }

    open spec fn from_spec(
        _spec: MimeSpec<Internationalized, Modern>,
    ) -> MimeSpec<Internationalized, Obs> {
        MimeSpec(PhantomData)
    }
}

impl From<HttpSpec<Modern>> for HttpSpec<Obs> {
    fn from(_spec: HttpSpec<Modern>) -> (r: HttpSpec<Obs>) {
        HttpSpec(PhantomData)
    }
}

impl FromSpecImpl<HttpSpec<Modern>> for HttpSpec<Obs> {
    open spec fn obeys_from_spec() -> bool {
        true
    }

    open spec fn from_spec(_spec: HttpSpec<Modern>) -> HttpSpec<Obs> {
        HttpSpec(PhantomData)
    }
}

impl From<StrictSpec> for HttpSpec<Modern> {
    fn from(_spec: StrictSpec) -> (r: HttpSpec<Modern>) {
        HttpSpec(PhantomData)
    }
}

impl FromSpecImpl<StrictSpec> for HttpSpec<Modern> {
    open spec fn obeys_from_spec() -> bool {
        true
    }

    open spec fn from_spec(_spec: StrictSpec) -> HttpSpec<Modern> {
        HttpSpec(PhantomData)
    }
}

impl From<StrictSpec> for HttpSpec<Obs> {
    fn from(_spec: StrictSpec) -> (r: HttpSpec<Obs>) {
        HttpSpec(PhantomData)
    }
}

impl FromSpecImpl<StrictSpec> for HttpSpec<Obs> {
    open spec fn obeys_from_spec() -> bool {
        true
    }

    open spec fn from_spec(_spec: StrictSpec) -> HttpSpec<Obs> {
        HttpSpec(PhantomData)
    }
}

impl From<StrictSpec> for MimeSpec<Ascii, Obs> {
    fn from(_spec: StrictSpec) -> (r: MimeSpec<Ascii, Obs>) {
        MimeSpec(PhantomData)
    }
}

impl FromSpecImpl<StrictSpec> for MimeSpec<Ascii, Obs> {
    open spec fn obeys_from_spec() -> bool {
        true
    }

    open spec fn from_spec(_spec: StrictSpec) -> MimeSpec<Ascii, Obs> {
        MimeSpec(PhantomData)
    }
}

impl From<StrictSpec> for MimeSpec<Ascii, Modern> {
    fn from(_spec: StrictSpec) -> (r: MimeSpec<Ascii, Modern>) {
        MimeSpec(PhantomData)
    }
}

impl FromSpecImpl<StrictSpec> for MimeSpec<Ascii, Modern> {
    open spec fn obeys_from_spec() -> bool {
        true
    }

    open spec fn from_spec(_spec: StrictSpec) -> MimeSpec<Ascii, Modern> {
        MimeSpec(PhantomData)
    }
}

impl From<StrictSpec> for MimeSpec<Internationalized, Obs> {
    fn from(_spec: StrictSpec) -> (r: MimeSpec<Internationalized, Obs>) {
        MimeSpec(PhantomData)
    }
}

impl FromSpecImpl<StrictSpec> for MimeSpec<Internationalized, Obs> {
    open spec fn obeys_from_spec() -> bool {
        true
    }

    open spec fn from_spec(_spec: StrictSpec) -> MimeSpec<Internationalized, Obs> {
        MimeSpec(PhantomData)
    }
}

impl From<StrictSpec> for MimeSpec<Internationalized, Modern> {
    fn from(_spec: StrictSpec) -> (r: MimeSpec<Internationalized, Modern>) {
        MimeSpec(PhantomData)
    }
}

impl FromSpecImpl<StrictSpec> for MimeSpec<Internationalized, Modern> {
    open spec fn obeys_from_spec() -> bool {
        true
    }

    open spec fn from_spec(_spec: StrictSpec) -> MimeSpec<Internationalized, Modern> {
        MimeSpec(PhantomData)
    }
}

impl From<StrictSpec> for AnySpec {
    fn from(_spec: StrictSpec) -> (r: AnySpec) {
        AnySpec
    }
}

impl FromSpecImpl<StrictSpec> for AnySpec {
    open spec fn obeys_from_spec() -> bool {
        true
    }

    open spec fn from_spec(_spec: StrictSpec) -> AnySpec {
        AnySpec
    }
}

impl From<HttpSpec<Modern>> for AnySpec {
    fn from(_spec: HttpSpec<Modern>) -> (r: AnySpec) {
        AnySpec
    }
}

impl FromSpecImpl<HttpSpec<Modern>> for AnySpec {
    open spec fn obeys_from_spec() -> bool {
        true
    }

    open spec fn from_spec(_spec: HttpSpec<Modern>) -> AnySpec {
        AnySpec
    }
}

impl From<HttpSpec<Obs>> for AnySpec {
    fn from(_spec: HttpSpec<Obs>) -> (r: AnySpec) {
        AnySpec
    }
}

impl FromSpecImpl<HttpSpec<Obs>> for AnySpec {
    open spec fn obeys_from_spec() -> bool {
        true
    }

    open spec fn from_spec(_spec: HttpSpec<Obs>) -> AnySpec {
        AnySpec
    }
}

impl From<MimeSpec<Ascii, Obs>> for AnySpec {
    fn from(_spec: MimeSpec<Ascii, Obs>) -> (r: AnySpec) {
        AnySpec
    }
}

impl FromSpecImpl<MimeSpec<Ascii, Obs>> for AnySpec {
    open spec fn obeys_from_spec() -> bool {
        true
    }

    open spec fn from_spec(_spec: MimeSpec<Ascii, Obs>) -> AnySpec {
        AnySpec
    }
}

impl From<MimeSpec<Ascii, Modern>> for AnySpec {
    fn from(_spec: MimeSpec<Ascii, Modern>) -> (r: AnySpec) {
        AnySpec
    }
}

impl FromSpecImpl<MimeSpec<Ascii, Modern>> for AnySpec {
    open spec fn obeys_from_spec() -> bool {
        true
    }

    open spec fn from_spec(_spec: MimeSpec<Ascii, Modern>) -> AnySpec {
        AnySpec
    }
}

impl From<MimeSpec<Internationalized, Obs>> for AnySpec {
    fn from(_spec: MimeSpec<Internationalized, Obs>) -> (r: AnySpec) {
        AnySpec
    }
}

impl FromSpecImpl<MimeSpec<Internationalized, Obs>> for AnySpec {
    open spec fn obeys_from_spec() -> bool {
        true
    }

    open spec fn from_spec(_spec: MimeSpec<Internationalized, Obs>) -> AnySpec {
        AnySpec
    }
}

impl From<MimeSpec<Internationalized, Modern>> for AnySpec {
    fn from(_spec: MimeSpec<Internationalized, Modern>) -> (r: AnySpec) {
        AnySpec
    }
}

impl FromSpecImpl<MimeSpec<Internationalized, Modern>> for AnySpec {
    open spec fn obeys_from_spec() -> bool {
        true
    }

    open spec fn from_spec(_spec: MimeSpec<Internationalized, Modern>) -> AnySpec {
        AnySpec
    }
}

} // verus!
